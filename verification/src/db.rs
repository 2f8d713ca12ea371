//! The metric registry: which collector an identity is bound to, and what a
//! reading does to it.

use std::collections::HashMap;
use vstd::prelude::*;
use vstd::std_specs::hash::*;
use crate::msg::texts;
use crate::msg::MetricKind;
use crate::msg::ReadingView;
use crate::msg::SensorReading;
use crate::msg::SetupMetrics;
use crate::msg::SetupView;
use crate::msg::Value;

verus! {

/// Name and label names of a metric.
#[derive(Debug, Clone, PartialEq, Eq)]
pub struct Metric {
    pub name: String,
    pub labels: Vec<String>,
}

/// A registered collector.
#[derive(Debug, Clone, PartialEq, Eq)]
pub enum DataCollector {
    Gauge(Metric),
    Counter(Metric),
}

/// The mathematical value of a collector.
pub struct CollectorView {
    pub kind: MetricKind,
    pub name: Seq<char>,
    pub labels: Seq<Seq<char>>,
}

impl View for DataCollector {
    type V = CollectorView;

    open spec fn view(&self) -> CollectorView {
        match self {
            DataCollector::Gauge(m) => CollectorView {
                kind: MetricKind::Gauge,
                name: m.name@,
                labels: texts(m.labels@),
            },
            DataCollector::Counter(m) => CollectorView {
                kind: MetricKind::Counter,
                name: m.name@,
                labels: texts(m.labels@),
            },
        }
    }
}

/// What a reading does to the sample of a collector.
#[derive(Debug, PartialEq, Eq, Clone, Copy, Structural)]
pub enum Effect {
    /// The sample takes the scalar with this bit pattern.
    Store(u32),
    /// The sample goes up by one.
    Inc,
    /// The sample goes down by one.
    Dec,
    /// The collector does not move that way: the sample stays.
    Nothing,
}

/// The effect of a value on a collector of the given kind. A gauge takes
/// every value. A counter only counts up: a scalar and a step down leave it
/// as it is.
pub open spec fn effect_of(kind: MetricKind, v: Value) -> Effect {
    match (kind, v) {
        (MetricKind::Gauge, Value::Simple(bits)) => Effect::Store(bits),
        (MetricKind::Gauge, Value::Inc) => Effect::Inc,
        (MetricKind::Gauge, Value::Dec) => Effect::Dec,
        (MetricKind::Counter, Value::Inc) => Effect::Inc,
        (MetricKind::Counter, _) => Effect::Nothing,
    }
}

impl DataCollector {
    pub fn kind(&self) -> (k: MetricKind)
        ensures
            k == self@.kind,
    {
        match self {
            DataCollector::Gauge(_) => MetricKind::Gauge,
            DataCollector::Counter(_) => MetricKind::Counter,
        }
    }

    /// The effect of a scalar.
    pub fn set(&self, value: u32) -> (e: Effect)
        ensures
            e == effect_of(self@.kind, Value::Simple(value)),
    {
        match self {
            DataCollector::Gauge(_) => Effect::Store(value),
            _ => Effect::Nothing,
        }
    }

    /// The effect of a step up.
    pub fn inc(&self) -> (e: Effect)
        ensures
            e == effect_of(self@.kind, Value::Inc),
    {
        match self {
            DataCollector::Gauge(_) => Effect::Inc,
            DataCollector::Counter(_) => Effect::Inc,
        }
    }

    /// The effect of a step down.
    pub fn dec(&self) -> (e: Effect)
        ensures
            e == effect_of(self@.kind, Value::Dec),
    {
        match self {
            DataCollector::Gauge(_) => Effect::Dec,
            _ => Effect::Nothing,
        }
    }
}

/// What the registry does on a reading: the metric, the label values that
/// pick its sample, and the effect on that sample.
#[derive(Debug, Clone, PartialEq, Eq)]
pub struct Update {
    pub name: String,
    pub label_values: Vec<String>,
    pub effect: Effect,
}

/// The mathematical value of an update.
pub struct UpdateView {
    pub name: Seq<char>,
    pub label_values: Seq<Seq<char>>,
    pub effect: Effect,
}

impl View for Update {
    type V = UpdateView;

    open spec fn view(&self) -> UpdateView {
        UpdateView {
            name: self.name@,
            label_values: texts(self.label_values@),
            effect: self.effect,
        }
    }
}

/// The bindings of a registry: identity to collector.
pub type Bindings = Map<u128, CollectorView>;

/// The collector that a registration defines.
pub open spec fn collector_of(s: SetupView) -> CollectorView {
    CollectorView { kind: s.kind, name: s.name, labels: s.labels }
}

/// The bindings after a registration: the identity is bound to the new
/// definition, whatever it was bound to before.
pub open spec fn registered(b: Bindings, s: SetupView) -> Bindings {
    b.insert(s.id, collector_of(s))
}

/// What a reading does: nothing where its identity is not registered, else
/// the update of the collector bound to that identity.
pub open spec fn update_for(b: Bindings, r: ReadingView) -> Option<UpdateView> {
    if b.contains_key(r.id) {
        Some(
            UpdateView {
                name: b[r.id].name,
                label_values: r.labels,
                effect: effect_of(b[r.id].kind, r.reading),
            },
        )
    } else {
        None
    }
}

/// A reading concerns the collector of its own identity and no other: what
/// it does is the same in any two registries that agree on that identity.
pub proof fn lemma_reading_reads_own_binding(a: Bindings, b: Bindings, r: ReadingView)
    requires
        a.contains_key(r.id) == b.contains_key(r.id),
        a.contains_key(r.id) ==> a[r.id] == b[r.id],
    ensures
        update_for(a, r) == update_for(b, r),
{
}

/// A registration binds its own identity and leaves every other identity as
/// it was; registering twice is the same as registering the later one.
pub proof fn lemma_registration_is_local(b: Bindings, s: SetupView, t: SetupView, other: u128)
    requires
        other != s.id,
    ensures
        registered(b, s).contains_key(other) == b.contains_key(other),
        b.contains_key(other) ==> registered(b, s)[other] == b[other],
        registered(b, s)[s.id] == collector_of(s),
        t.id == s.id ==> registered(registered(b, s), t) == registered(b, t),
{
    if t.id == s.id {
        assert(registered(registered(b, s), t) =~= registered(b, t));
    }
}

/// A reading of an identity that was never registered does nothing, and a
/// reading of a registered one always has an update.
pub proof fn lemma_unknown_identity_is_dropped(b: Bindings, r: ReadingView)
    ensures
        !b.contains_key(r.id) <==> update_for(b, r) is None,
{
}

/// Identity to collector.
pub struct PrometheusCollector {
    metrics: HashMap<u128, DataCollector>,
}

impl View for PrometheusCollector {
    type V = Bindings;

    closed spec fn view(&self) -> Bindings {
        self.metrics@.map_values(|c: DataCollector| c@)
    }
}

impl PrometheusCollector {
    /// A registry without metrics.
    pub fn new() -> (r: PrometheusCollector)
        ensures
            r@ == Bindings::empty(),
    {
        let r = PrometheusCollector { metrics: HashMap::new() };
        assert(r@ =~= Bindings::empty());
        r
    }

    /// Whether `id` is registered.
    pub fn contains(&self, id: u128) -> (r: bool)
        ensures
            r == self@.contains_key(id),
    {
        broadcast use group_hash_axioms;

        self.metrics.contains_key(&id)
    }

    /// A registration: the identity is bound to a collector of the requested
    /// kind, name and label names. An earlier binding of the identity is
    /// overwritten.
    pub fn register(&mut self, msg: SetupMetrics)
        ensures
            final(self)@ == registered(old(self)@, msg@),
    {
        broadcast use group_hash_axioms;

        let ghost s = msg@;
        match msg {
            SetupMetrics::Gauge(id, name, labels) => {
                let c = DataCollector::Gauge(Metric { name, labels });
                assert(c@ == collector_of(s));
                self.metrics.insert(id, c);
            },
            SetupMetrics::Counter(id, name, labels) => {
                let c = DataCollector::Counter(Metric { name, labels });
                assert(c@ == collector_of(s));
                self.metrics.insert(id, c);
            },
        }
        assert(self@ =~= registered(old(self)@, s));
    }

    /// A reading: `None` where the identity is not registered (the reading is
    /// dropped), else the update of the metric bound to it. The registry
    /// itself does not change.
    pub fn reading(&self, msg: &SensorReading) -> (r: Option<Update>)
        ensures
            match r {
                Some(u) => update_for(self@, msg@) == Some(u@),
                None => update_for(self@, msg@) is None,
            },
    {
        broadcast use group_hash_axioms;

        match self.metrics.get(&msg.id) {
            Some(dc) => {
                let effect = match msg.reading {
                    Value::Simple(v) => dc.set(v),
                    Value::Inc => dc.inc(),
                    Value::Dec => dc.dec(),
                };
                let name = match dc {
                    DataCollector::Gauge(m) => m.name.clone(),
                    DataCollector::Counter(m) => m.name.clone(),
                };
                Some(Update { name, label_values: copy_texts(&msg.labels), effect })
            },
            None => None,
        }
    }
}

/// A copy of a list of strings.
pub fn copy_texts(v: &Vec<String>) -> (r: Vec<String>)
    ensures
        texts(r@) == texts(v@),
{
    let mut r: Vec<String> = Vec::new();
    let mut i: usize = 0;
    while i < v.len()
        invariant
            i <= v.len(),
            r@.len() == i,
            forall|j: int| 0 <= j < i ==> (#[trigger] r@[j])@ == v@[j]@,
        decreases v.len() - i,
    {
        r.push(v[i].clone());
        i += 1;
    }
    assert(texts(r@) =~= texts(v@));
    r
}

} // verus!
