//! Central catalogue of available metrics.
use vstd::prelude::*;
use crate::hardware::cpu::default_metrics;
use crate::hardware::cpu::freq::{is_current_freq_value, CpuCurrentFreqMetric};
use crate::hardware::cpu::governor::{
    governor_name, is_available_governors_value, is_governor_value, is_name_value,
    CpuAvailableGovernorsMetric, CpuGovernorMetric,
};
use crate::hardware::cpu::topology::{
    is_cluster_value, is_online_value, online_write_outcome, CpuClusterMetric, CpuOnlineMetric,
};
use crate::hardware::cpu::usage::{
    is_usage_value, nested, percent_series_view, proc_stat_fits, stat_samples, usage_read, usage_step,
    CpuUtilizationMetric, PROC_STAT,
};
use crate::order::is_stable_sort;
use crate::hardware::metric::Metric;
use crate::hardware::source::{HwError, Source};
use crate::hardware::value::{kind_text, Value, ValueView};
use crate::text::{same_text, string_from};

verus! {

broadcast use vstd::std_specs::vec::group_vec_axioms;

/// Central catalogue of available metrics.
///
/// Adding a new CPU parameter only requires registering it here (typically
/// in [`Registry::default_cpu`]); the CLI and TUI discover it by id.
pub struct Registry {
    metrics: Vec<CpuMetric>,
}

/// Any of the library's metrics.
pub enum CpuMetric {
    CurrentFreq(CpuCurrentFreqMetric),
    Governor(CpuGovernorMetric),
    AvailableGovernors(CpuAvailableGovernorsMetric),
    Online(CpuOnlineMetric),
    Cluster(CpuClusterMetric),
    Utilization(CpuUtilizationMetric),
}

pub open spec fn is_usage_metric(m: CpuMetric) -> bool {
    m is Utilization
}

/// The samples a metric keeps between reads: the usage metric's last
/// `(idle, total)` of each core; the other metrics keep none.
pub open spec fn kept_samples(m: CpuMetric) -> Map<usize, (u64, u64)> {
    match m {
        CpuMetric::Utilization(u) => u.history(),
        _ => Map::empty(),
    }
}

impl Metric for CpuMetric {
    open spec fn spec_id(&self) -> Seq<char> {
        match self {
            CpuMetric::CurrentFreq(m) => m.spec_id(),
            CpuMetric::Governor(m) => m.spec_id(),
            CpuMetric::AvailableGovernors(m) => m.spec_id(),
            CpuMetric::Online(m) => m.spec_id(),
            CpuMetric::Cluster(m) => m.spec_id(),
            CpuMetric::Utilization(m) => m.spec_id(),
        }
    }

    open spec fn spec_label(&self) -> Seq<char> {
        match self {
            CpuMetric::CurrentFreq(m) => m.spec_label(),
            CpuMetric::Governor(m) => m.spec_label(),
            CpuMetric::AvailableGovernors(m) => m.spec_label(),
            CpuMetric::Online(m) => m.spec_label(),
            CpuMetric::Cluster(m) => m.spec_label(),
            CpuMetric::Utilization(m) => m.spec_label(),
        }
    }

    open spec fn spec_writable(&self) -> bool {
        match self {
            CpuMetric::CurrentFreq(m) => m.spec_writable(),
            CpuMetric::Governor(m) => m.spec_writable(),
            CpuMetric::AvailableGovernors(m) => m.spec_writable(),
            CpuMetric::Online(m) => m.spec_writable(),
            CpuMetric::Cluster(m) => m.spec_writable(),
            CpuMetric::Utilization(m) => m.spec_writable(),
        }
    }

    open spec fn spec_core_writable(&self) -> bool {
        match self {
            CpuMetric::CurrentFreq(m) => m.spec_core_writable(),
            CpuMetric::Governor(m) => m.spec_core_writable(),
            CpuMetric::AvailableGovernors(m) => m.spec_core_writable(),
            CpuMetric::Online(m) => m.spec_core_writable(),
            CpuMetric::Cluster(m) => m.spec_core_writable(),
            CpuMetric::Utilization(m) => m.spec_core_writable(),
        }
    }

    fn id(&self) -> (r: &str) {
        match self {
            CpuMetric::CurrentFreq(m) => m.id(),
            CpuMetric::Governor(m) => m.id(),
            CpuMetric::AvailableGovernors(m) => m.id(),
            CpuMetric::Online(m) => m.id(),
            CpuMetric::Cluster(m) => m.id(),
            CpuMetric::Utilization(m) => m.id(),
        }
    }

    fn label(&self) -> (r: &str) {
        match self {
            CpuMetric::CurrentFreq(m) => m.label(),
            CpuMetric::Governor(m) => m.label(),
            CpuMetric::AvailableGovernors(m) => m.label(),
            CpuMetric::Online(m) => m.label(),
            CpuMetric::Cluster(m) => m.label(),
            CpuMetric::Utilization(m) => m.label(),
        }
    }

    fn unit(&self) -> (r: &str)
        ensures
            r@ == metric_unit(*self),
    {
        match self {
            CpuMetric::CurrentFreq(m) => m.unit(),
            CpuMetric::Governor(m) => m.unit(),
            CpuMetric::AvailableGovernors(m) => m.unit(),
            CpuMetric::Online(m) => m.unit(),
            CpuMetric::Cluster(m) => m.unit(),
            CpuMetric::Utilization(m) => m.unit(),
        }
    }

    fn read<S: Source + ?Sized>(&mut self, source: &S) -> (r: Result<Value, HwError>)
        ensures
            r matches Ok(v) ==> readable_value(source, old(self).spec_id(), v@),
            metric_unit(*final(self)) == metric_unit(*old(self)),
            is_usage_metric(*old(self)) ==> (r matches Ok(v) ==> usage_read(
                source,
                kept_samples(*old(self)),
                kept_samples(*final(self)),
                v@,
            )),
            r is Err || !is_usage_metric(*old(self)) ==> kept_samples(*final(self)) == kept_samples(*old(self)),
    {
        proof {
            lemma_ids_distinct();
        }
        match self {
            CpuMetric::CurrentFreq(m) => m.read(source),
            CpuMetric::Governor(m) => m.read(source),
            CpuMetric::AvailableGovernors(m) => m.read(source),
            CpuMetric::Online(m) => m.read(source),
            CpuMetric::Cluster(m) => m.read(source),
            CpuMetric::Utilization(m) => {
                let ghost h = m.history();
                let r = m.read(source);
                proof {
                    if r is Ok {
                        let v = r->Ok_0;
                        let (content, samples) = choose|
                            content: Seq<char>,
                            samples: Seq<(usize, u64, u64)>,
                        |
                            #![trigger stat_samples(content), usage_step(h, samples)]
                            source.served(PROC_STAT@, content) && proc_stat_fits(content)
                                && is_stable_sort(
                                nested(samples),
                                stat_samples(content),
                            ) && v@ == percent_series_view(usage_step(h, samples).1);
                        assert(stat_samples(content) == stat_samples(content));
                        assert(usage_step(h, samples) == usage_step(h, samples));
                    }
                }
                r
            },
        }
    }

    fn is_writable(&self) -> (r: bool) {
        match self {
            CpuMetric::CurrentFreq(m) => m.is_writable(),
            CpuMetric::Governor(m) => m.is_writable(),
            CpuMetric::AvailableGovernors(m) => m.is_writable(),
            CpuMetric::Online(m) => m.is_writable(),
            CpuMetric::Cluster(m) => m.is_writable(),
            CpuMetric::Utilization(m) => m.is_writable(),
        }
    }

    fn write<S: Source + ?Sized>(&self, source: &S, value: &Value) -> (r: Result<(), HwError>)
        ensures
            write_outcome(self.spec_id(), value@, r),
    {
        proof {
            lemma_ids_distinct();
        }
        match self {
            CpuMetric::CurrentFreq(m) => m.write(source, value),
            CpuMetric::Governor(m) => m.write(source, value),
            CpuMetric::AvailableGovernors(m) => m.write(source, value),
            CpuMetric::Online(m) => m.write(source, value),
            CpuMetric::Cluster(m) => m.write(source, value),
            CpuMetric::Utilization(m) => m.write(source, value),
        }
    }

    fn is_core_writable(&self) -> (r: bool) {
        match self {
            CpuMetric::CurrentFreq(m) => m.is_core_writable(),
            CpuMetric::Governor(m) => m.is_core_writable(),
            CpuMetric::AvailableGovernors(m) => m.is_core_writable(),
            CpuMetric::Online(m) => m.is_core_writable(),
            CpuMetric::Cluster(m) => m.is_core_writable(),
            CpuMetric::Utilization(m) => m.is_core_writable(),
        }
    }

    fn write_core<S: Source + ?Sized>(&self, source: &S, core: usize, value: &Value) -> (r: Result<
        (),
        HwError,
    >)
        ensures
            write_core_outcome(source, self.spec_id(), core, value@, r),
    {
        proof {
            lemma_ids_distinct();
        }
        match self {
            CpuMetric::CurrentFreq(m) => m.write_core(source, core, value),
            CpuMetric::Governor(m) => m.write_core(source, core, value),
            CpuMetric::AvailableGovernors(m) => m.write_core(source, core, value),
            CpuMetric::Online(m) => m.write_core(source, core, value),
            CpuMetric::Cluster(m) => m.write_core(source, core, value),
            CpuMetric::Utilization(m) => m.write_core(source, core, value),
        }
    }
}

/// The ids of the default CPU metrics, in registration order.
pub open spec fn default_cpu_ids() -> Seq<Seq<char>> {
    seq![
        "cpu.freq.cur"@,
        "cpu.governor"@,
        "cpu.governor.available"@,
        "cpu.topology.online"@,
        "cpu.topology.cluster"@,
        "cpu.usage"@,
    ]
}

/// The unit suffix of a metric: MHz for the current frequency, percent for
/// the utilization, none for the others.
pub open spec fn metric_unit(m: CpuMetric) -> Seq<char> {
    match m {
        CpuMetric::CurrentFreq(_) => "MHz"@,
        CpuMetric::Utilization(_) => "%"@,
        _ => Seq::empty(),
    }
}

/// The units of the default CPU metrics, in registration order.
pub open spec fn default_cpu_units() -> Seq<Seq<char>> {
    seq!["MHz"@, Seq::empty(), Seq::empty(), Seq::empty(), Seq::empty(), "%"@]
}

/// The units of a list of metrics.
pub open spec fn metric_units(ms: Seq<CpuMetric>) -> Seq<Seq<char>> {
    ms.map_values(|m: CpuMetric| metric_unit(m))
}

/// What writing `v` through the metric with id `id` gives: the governor
/// metric refuses a value that is not a name, or a blank name, and
/// succeeds only with a name; every other metric is read-only and refuses.
pub open spec fn write_outcome(id: Seq<char>, v: ValueView, r: Result<(), HwError>) -> bool {
    if id == "cpu.governor"@ {
        &&& !is_name_value(v) ==> (r matches Err(HwError::NotAGovernorName(k)) && k@ == kind_text(v))
        &&& is_name_value(v) && governor_name(v) is Err ==> r == Err::<(), HwError>(
            HwError::EmptyGovernorName,
        )
        &&& r is Ok ==> is_name_value(v) && governor_name(v) is Ok
    } else {
        r matches Err(HwError::ReadOnly(n)) && n@ == id
    }
}

/// What writing `v` to core `core` through the metric with id `id` gives:
/// the online metric refuses a value that is not a `Bool`, and otherwise
/// succeeds or reports a missing `online` file or a failed write for that
/// core; every other metric refuses per-core writes.
pub open spec fn write_core_outcome<S: Source + ?Sized>(
    source: &S,
    id: Seq<char>,
    core: usize,
    v: ValueView,
    r: Result<(), HwError>,
) -> bool {
    if id == "cpu.topology.online"@ {
        match v {
            ValueView::Bool(b) => online_write_outcome(source, core, b, r),
            _ => r matches Err(HwError::NotABool(k)) && k@ == kind_text(v),
        }
    } else {
        r matches Err(HwError::NotCoreWritable(n)) && n@ == id
    }
}

/// The ids of the library's metrics.
pub open spec fn is_known_id(id: Seq<char>) -> bool {
    ||| id == "cpu.freq.cur"@
    ||| id == "cpu.governor"@
    ||| id == "cpu.governor.available"@
    ||| id == "cpu.topology.online"@
    ||| id == "cpu.topology.cluster"@
    ||| id == "cpu.usage"@
}

/// The labels of the default CPU metrics, in registration order.
pub open spec fn default_cpu_labels() -> Seq<Seq<char>> {
    seq![
        "Current Frequency"@,
        "Scaling Governor"@,
        "Available Governors"@,
        "Online Status"@,
        "Cluster"@,
        "Usage"@,
    ]
}

/// The ids of a list of metrics.
pub open spec fn metric_ids(ms: Seq<CpuMetric>) -> Seq<Seq<char>> {
    ms.map_values(|m: CpuMetric| m.spec_id())
}

/// The labels of a list of metrics.
pub open spec fn metric_labels(ms: Seq<CpuMetric>) -> Seq<Seq<char>> {
    ms.map_values(|m: CpuMetric| m.spec_label())
}

/// The ids of the library's metrics differ from one another.
proof fn lemma_ids_distinct()
    ensures
        "cpu.governor"@ != "cpu.freq.cur"@,
        "cpu.governor.available"@ != "cpu.freq.cur"@,
        "cpu.governor.available"@ != "cpu.governor"@,
        "cpu.topology.online"@ != "cpu.freq.cur"@,
        "cpu.topology.online"@ != "cpu.governor"@,
        "cpu.topology.online"@ != "cpu.governor.available"@,
        "cpu.topology.cluster"@ != "cpu.freq.cur"@,
        "cpu.topology.cluster"@ != "cpu.governor"@,
        "cpu.topology.cluster"@ != "cpu.governor.available"@,
        "cpu.topology.cluster"@ != "cpu.topology.online"@,
        "cpu.usage"@ != "cpu.freq.cur"@,
        "cpu.usage"@ != "cpu.governor"@,
        "cpu.usage"@ != "cpu.governor.available"@,
        "cpu.usage"@ != "cpu.topology.online"@,
        "cpu.usage"@ != "cpu.topology.cluster"@,
{
    reveal_strlit("cpu.freq.cur");
    reveal_strlit("cpu.governor");
    reveal_strlit("cpu.governor.available");
    reveal_strlit("cpu.topology.online");
    reveal_strlit("cpu.topology.cluster");
    reveal_strlit("cpu.usage");
    assert("cpu.governor"@[4] != "cpu.freq.cur"@[4]);
    assert("cpu.governor"@.len() == 12);
    assert("cpu.governor.available"@.len() == 22);
    assert("cpu.topology.online"@.len() == 19);
    assert("cpu.topology.cluster"@.len() == 20);
    assert("cpu.usage"@.len() == 9);
    assert("cpu.freq.cur"@.len() == 12);
}

/// What reading the metric with id `id` through `source` can give (anything, for an id
/// that is not one of the library's metrics).
pub open spec fn readable_value<S: Source + ?Sized>(source: &S, id: Seq<char>, v: ValueView) -> bool {
    if id == "cpu.freq.cur"@ {
        is_current_freq_value(source, v)
    } else if id == "cpu.governor"@ {
        is_governor_value(source, v)
    } else if id == "cpu.governor.available"@ {
        is_available_governors_value(source, v)
    } else if id == "cpu.topology.online"@ {
        is_online_value(source, v)
    } else if id == "cpu.topology.cluster"@ {
        is_cluster_value(source, v)
    } else if id == "cpu.usage"@ {
        is_usage_value(source, v)
    } else {
        true
    }
}

/// What one read leaves of a metric's kept samples, `before` the read and
/// `after` it: a read of the usage metric that gave a value steps them
/// (`usage_read`); any other read leaves them as they were.
pub open spec fn kept_after_read<S: Source + ?Sized>(
    source: &S,
    id: Seq<char>,
    before: Map<usize, (u64, u64)>,
    after: Map<usize, (u64, u64)>,
    read: Option<ValueView>,
) -> bool {
    match read {
        Some(v) => if id == "cpu.usage"@ {
            usage_read(source, before, after, v)
        } else {
            after == before
        },
        None => after == before,
    }
}

impl Registry {
    /// The ids of the registered metrics, in registration order.
    pub closed spec fn ids(&self) -> Seq<Seq<char>> {
        Seq::new(self.metrics@.len(), |i: int| self.metrics@[i].spec_id())
    }

    /// The labels of the registered metrics, in registration order.
    pub closed spec fn labels(&self) -> Seq<Seq<char>> {
        Seq::new(self.metrics@.len(), |i: int| self.metrics@[i].spec_label())
    }

    /// The samples each registered metric keeps between reads, in
    /// registration order (see `kept_samples`).
    pub closed spec fn kept(&self) -> Seq<Map<usize, (u64, u64)>> {
        Seq::new(self.metrics@.len(), |i: int| kept_samples(self.metrics@[i]))
    }

    /// The units of the registered metrics, in registration order.
    pub closed spec fn units(&self) -> Seq<Seq<char>> {
        Seq::new(self.metrics@.len(), |i: int| metric_unit(self.metrics@[i]))
    }

    /// Every registered metric is one of the library's metrics.
    pub proof fn lemma_known_ids(&self)
        ensures
            forall|i: int| 0 <= i < self.ids().len() ==> is_known_id(#[trigger] self.ids()[i]),
    {
    }

    /// Every registered metric has one id, one label and one unit.
    pub proof fn lemma_labels_len(&self)
        ensures
            self.labels().len() == self.ids().len(),
            self.units().len() == self.ids().len(),
            self.kept().len() == self.ids().len(),
    {
    }

    /// Whether the metric at position `i` supports per-core writes.
    pub closed spec fn core_writable(&self, i: int) -> bool {
        self.metrics@[i].spec_core_writable()
    }

    /// Only the online metric is written per core.
    pub proof fn lemma_core_writable(&self, i: int)
        requires
            0 <= i < self.ids().len(),
        ensures
            self.core_writable(i) <==> self.ids()[i] == "cpu.topology.online"@,
    {
        reveal_strlit("cpu.topology.online");
        reveal_strlit("cpu.freq.cur");
        reveal_strlit("cpu.governor");
        reveal_strlit("cpu.governor.available");
        reveal_strlit("cpu.topology.cluster");
        reveal_strlit("cpu.usage");
        assert(self.ids()[i] == self.metrics@[i].spec_id());
        match self.metrics@[i] {
            CpuMetric::Online(_) => {},
            _ => {
                assert(self.metrics@[i].spec_id().len() != "cpu.topology.online"@.len());
            },
        }
    }

    pub fn new() -> (r: Self)
        ensures
            r.ids() == Seq::<Seq<char>>::empty(),
            r.labels() == Seq::<Seq<char>>::empty(),
            r.units() == Seq::<Seq<char>>::empty(),
    {
        let r = Registry { metrics: Vec::new() };
        assert(r.ids() =~= Seq::<Seq<char>>::empty());
        assert(r.labels() =~= Seq::<Seq<char>>::empty());
        assert(r.units() =~= Seq::<Seq<char>>::empty());
        r
    }

    pub fn register(&mut self, metric: CpuMetric)
        ensures
            final(self).ids() == old(self).ids().push(metric.spec_id()),
            final(self).labels() == old(self).labels().push(metric.spec_label()),
            final(self).units() == old(self).units().push(metric_unit(metric)),
    {
        let ghost id = metric.spec_id();
        let ghost label = metric.spec_label();
        let ghost unit = metric_unit(metric);
        self.metrics.push(metric);
        assert(self.ids() =~= old(self).ids().push(id));
        assert(self.labels() =~= old(self).labels().push(label));
        assert(self.units() =~= old(self).units().push(unit));
    }

    /// The registered metrics, in registration order.
    pub fn iter(&self) -> (r: &Vec<CpuMetric>)
        ensures
            metric_ids(r@) == self.ids(),
            metric_labels(r@) == self.labels(),
    {
        assert(metric_ids(self.metrics@) =~= self.ids());
        assert(metric_labels(self.metrics@) =~= self.labels());
        &self.metrics
    }

    pub fn len(&self) -> (r: usize)
        ensures
            r == self.ids().len(),
    {
        self.metrics.len()
    }

    pub fn is_empty(&self) -> (r: bool)
        ensures
            r == (self.ids().len() == 0),
    {
        self.metrics.len() == 0
    }

    /// The id of the metric at position `i`.
    pub fn id_at(&self, i: usize) -> (r: String)
        requires
            i < self.ids().len(),
        ensures
            r@ == self.ids()[i as int],
    {
        string_from(self.metrics[i].id())
    }

    /// The label of the metric at position `i`.
    pub fn label_at(&self, i: usize) -> (r: String)
        requires
            i < self.ids().len(),
        ensures
            r@ == self.labels()[i as int],
    {
        string_from(self.metrics[i].label())
    }

    /// The unit of the metric at position `i`.
    pub fn unit_at(&self, i: usize) -> (r: String)
        requires
            i < self.ids().len(),
        ensures
            r@ == self.units()[i as int],
    {
        string_from(self.metrics[i].unit())
    }

    /// Whether the metric at position `i` supports per-core writes.
    pub fn is_core_writable_at(&self, i: usize) -> (r: bool)
        requires
            i < self.ids().len(),
        ensures
            r == self.core_writable(i as int),
    {
        self.metrics[i].is_core_writable()
    }

    /// Writes `value` to core `core` through the metric at position `i`.
    pub fn write_core_at<S: Source + ?Sized>(&self, i: usize, source: &S, core: usize, value: &Value) -> (r:
        Result<(), HwError>)
        requires
            i < self.ids().len(),
        ensures
            !self.core_writable(i as int) ==> (r matches Err(HwError::NotCoreWritable(id)) && id@
                == self.ids()[i as int]),
            write_core_outcome(source, self.ids()[i as int], core, value@, r),
    {
        self.metrics[i].write_core(source, core, value)
    }

    /// Writes `value` through the metric at position `i`.
    pub fn write_at<S: Source + ?Sized>(&self, i: usize, source: &S, value: &Value) -> (r: Result<(), HwError>)
        requires
            i < self.ids().len(),
        ensures
            write_outcome(self.ids()[i as int], value@, r),
    {
        self.metrics[i].write(source, value)
    }

    /// Reads the metric at position `i`.
    pub fn read_at<S: Source + ?Sized>(&mut self, i: usize, source: &S) -> (r: Result<Value, HwError>)
        requires
            i < old(self).ids().len(),
        ensures
            final(self).ids() == old(self).ids(),
            final(self).labels() == old(self).labels(),
            final(self).units() == old(self).units(),
            r matches Ok(v) ==> readable_value(source, old(self).ids()[i as int], v@),
            final(self).kept().len() == old(self).kept().len(),
            forall|j: int| 0 <= j < old(self).kept().len() && j != i ==> #[trigger] final(self).kept()[j]
                == old(self).kept()[j],
            old(self).ids()[i as int] == "cpu.usage"@ ==> (r matches Ok(v) ==> usage_read(
                source,
                old(self).kept()[i as int],
                final(self).kept()[i as int],
                v@,
            )),
            r is Err || old(self).ids()[i as int] != "cpu.usage"@ ==> final(self).kept()[i as int] == old(
                self,
            ).kept()[i as int],
    {
        let ghost before = self.ids();
        let ghost labels = self.labels();
        let ghost units = self.units();
        let ghost kept = self.kept();
        proof {
            lemma_ids_distinct();
            reveal_strlit("cpu.usage");
        }
        let mut m = self.metrics.remove(i);
        assert(kept[i as int] == kept_samples(m));
        assert(before[i as int] == m.spec_id());
        let r = m.read(source);
        self.metrics.insert(i, m);
        assert(self.ids() =~= before);
        assert(self.labels() =~= labels);
        assert(self.units() =~= units);
        assert(self.kept()[i as int] == kept_samples(m));
        assert(forall|j: int| 0 <= j < kept.len() && j != i ==> #[trigger] self.kept()[j] == kept[j]);
        r
    }

    /// The position of the first metric whose id is `id`.
    pub fn find(&self, id: &str) -> (r: Option<usize>)
        ensures
            match r {
                Some(i) => i < self.ids().len() && self.ids()[i as int] == id@ && forall|j: int|
                    0 <= j < i ==> self.ids()[j] != id@,
                None => forall|j: int| 0 <= j < self.ids().len() ==> self.ids()[j] != id@,
            },
    {
        let mut i: usize = 0;
        while i < self.metrics.len()
            invariant
                0 <= i <= self.metrics.len(),
                forall|j: int| 0 <= j < i ==> self.ids()[j] != id@,
            decreases self.metrics.len() - i,
        {
            if same_text(self.metrics[i].id(), id) {
                return Some(i);
            }
            i = i + 1;
        }
        None
    }

    /// Build a registry populated with the default set of CPU metrics.
    pub fn default_cpu() -> (r: Self)
        ensures
            r.ids() == default_cpu_ids(),
            r.labels() == default_cpu_labels(),
            r.units() == default_cpu_units(),
    {
        let mut reg = Self::new();
        let mut ms = default_metrics();
        let ghost all = ms@;
        let mut i: usize = 0;
        let n = ms.len();
        while ms.len() > 0
            invariant
                n == all.len(),
                i + ms@.len() == n,
                ms@ == all.skip(i as int),
                reg.ids() == metric_ids(all.take(i as int)),
                reg.labels() == metric_labels(all.take(i as int)),
                reg.units() == metric_units(all.take(i as int)),
            decreases ms@.len(),
        {
            let m = ms.remove(0);
            assert(all.take(i + 1) =~= all.take(i as int).push(m));
            reg.register(m);
            assert(reg.ids() =~= metric_ids(all.take(i + 1)));
            assert(reg.labels() =~= metric_labels(all.take(i + 1)));
            assert(reg.units() =~= metric_units(all.take(i + 1)));
            i = i + 1;
            assert(ms@ =~= all.skip(i as int));
        }
        assert(all.take(n as int) =~= all);
        reg
    }
}

impl Default for Registry {
    fn default() -> (r: Self)
        ensures
            r.ids() == Seq::<Seq<char>>::empty(),
    {
        Registry::new()
    }
}

} // verus!
