use vstd::prelude::*;

verus! {

/// Settings of a load test, built once before any thread starts and copied
/// into every thread that needs them.
#[derive(Clone, Debug, PartialEq, Eq)]
pub struct LoadTestConfig {
    pub target: String,
    pub keep_alive: bool,
    pub control_thread: bool,
    pub thread_count: u32,
    pub requests_per_thread: u32,
    /// Milliseconds to sleep after a clean burst.
    pub delay_duration: u32,
    pub burst_size: u32,
    /// Progress is shown on iterations that are multiples of this; zero shows none.
    pub print_on_iteration: u32,
}

} // verus!
