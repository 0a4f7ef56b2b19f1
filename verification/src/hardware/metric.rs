//! Readable (and optionally writable) hardware parameters, and the catalogue
//! that holds them.
use vstd::prelude::*;
use crate::hardware::source::{HwError, Source};
use crate::text::string_from;
use crate::hardware::value::Value;

verus! {

broadcast use vstd::std_specs::vec::group_vec_axioms;

/// A readable (and optionally writable) hardware parameter.
///
/// Implementations receive the [`Source`] at call time so the same struct
/// can be exercised against an in-memory source in tests. Stateful metrics
/// (utilization, which needs the previous sample) keep their state in the
/// struct, which `read` updates.
pub trait Metric {
    /// The stable identifier of the metric.
    spec fn spec_id(&self) -> Seq<char>;

    /// The human-readable name of the metric.
    spec fn spec_label(&self) -> Seq<char>;

    /// Whether the metric supports `write`.
    spec fn spec_writable(&self) -> bool;

    /// Whether the metric supports `write_core`.
    spec fn spec_core_writable(&self) -> bool;

    /// Stable identifier, e.g. `"cpu.freq.cur"`.
    fn id(&self) -> (r: &str)
        ensures
            r@ == self.spec_id(),
    ;

    /// Human-readable name shown in UIs.
    fn label(&self) -> (r: &str)
        ensures
            r@ == self.spec_label(),
    ;

    /// Unit suffix, e.g. `"MHz"`. Empty string when not applicable.
    fn unit(&self) -> (r: &str)
        default_ensures
            r@ == Seq::<char>::empty(),
    {
        proof {
            reveal_strlit("");
        }
        ""
    }

    /// Coarse grouping used to organise CLI/TUI views, e.g. `"cpu"`.
    fn category(&self) -> (r: &str)
        default_ensures
            r@ == "cpu"@,
    {
        "cpu"
    }

    /// Read the current value.
    fn read<S: Source + ?Sized>(&mut self, source: &S) -> (r: Result<Value, HwError>)
        ensures
            final(self).spec_id() == old(self).spec_id(),
            final(self).spec_label() == old(self).spec_label(),
    ;

    /// Whether this parameter can be set.
    fn is_writable(&self) -> (r: bool)
        ensures
            r == self.spec_writable(),
    ;

    /// Write a new value. Only meaningful when [`Metric::is_writable`]
    /// holds; a read-only metric refuses.
    fn write<S: Source + ?Sized>(&self, source: &S, value: &Value) -> (r: Result<(), HwError>)
        ensures
            !self.spec_writable() ==> (r matches Err(HwError::ReadOnly(id)) && id@
                == self.spec_id()),
    {
        Err(HwError::ReadOnly(string_from(self.id())))
    }

    /// Whether this parameter supports per-core writes.
    fn is_core_writable(&self) -> (r: bool)
        ensures
            r == self.spec_core_writable(),
    ;

    /// Write a value to a single core of a per-core series metric. Only
    /// meaningful when [`Metric::is_core_writable`] holds; other metrics
    /// refuse. Implementations isolate failures: an error for one core does
    /// not prevent writes to other cores.
    fn write_core<S: Source + ?Sized>(&self, source: &S, core: usize, value: &Value) -> (r: Result<
        (),
        HwError,
    >)
        ensures
            !self.spec_core_writable() ==> (r matches Err(HwError::NotCoreWritable(id)) && id@
                == self.spec_id()),
    {
        Err(HwError::NotCoreWritable(string_from(self.id())))
    }
}

} // verus!
