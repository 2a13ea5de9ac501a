use vstd::prelude::*;

verus! {

/// The kind of observation a metric series records.
#[derive(Clone, Copy, Debug, PartialEq, Eq, Structural)]
pub enum MetricType {
    Write,
    Read,
}

/// Collaborator contract for a metric-series collector outside this
/// core: one timed observation per completed device operation, with
/// `operation_time` as the elapsed-time contribution. The core exposes
/// this interface and does not invoke it itself.
pub trait MetricStorage {
    /// The names of the recorded series.
    fn list_metric(&self) -> Vec<String>;

    /// Record one timed observation in the named series.
    fn put_metric(
        &mut self,
        series_name: &str,
        bit_amount: u32,
        timestamp: u32,
        metric_type: MetricType,
    );
}

} // verus!
