//! The pages of the monitor and the length of its timelines.
use vstd::prelude::*;

verus! {

/// The pages of the monitor.
#[derive(Clone, Copy, Debug, PartialEq, Eq, Structural)]
pub enum Tab {
    SystemInfo,
    Stress,
    Analyzers,
}

impl Default for Tab {
    /// The page shown first.
    fn default() -> (tab: Self)
        ensures
            tab == Tab::SystemInfo,
    {
        Tab::SystemInfo
    }
}

/// The number of samples the processor-usage timeline of a run keeps.
pub const CPU_USAGE_HISTORY_LEN: usize = 100;

} // verus!
