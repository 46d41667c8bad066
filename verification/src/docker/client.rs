// The shapes the container runtime's API reports: a listed container
// and one container's statistics.  The socket transport that fills
// them lives with the adapters, outside the framework.

use vstd::prelude::*;

verus! {

/// One listed container: its identifier and its lifecycle state.
pub struct Container {
    pub id: String,
    pub state: String,
}

/// The mathematical model of a `Container`.
pub ghost struct ContainerView {
    pub id: Seq<char>,
    pub state: Seq<char>,
}

impl View for Container {
    type V = ContainerView;

    open spec fn view(&self) -> ContainerView {
        ContainerView { id: self.id@, state: self.state@ }
    }
}

impl DeepView for Container {
    type V = ContainerView;

    open spec fn deep_view(&self) -> ContainerView {
        self@
    }
}

/// Cumulative processor time consumed by one container, in the
/// runtime's nanosecond units.
#[derive(Clone, Copy, PartialEq, Eq, Structural, Debug)]
pub struct CPUUsage {
    pub total_usage: u128,
}

/// One container's processor statistics: its own cumulative usage and
/// the host's cumulative processor time.
#[derive(Clone, Copy, PartialEq, Eq, Structural, Debug)]
pub struct CPUStats {
    pub cpu_usage: CPUUsage,
    pub system_cpu_usage: u128,
}

/// One container's memory page-cache statistics.
#[derive(Clone, Copy, PartialEq, Eq, Structural, Debug)]
pub struct MemoryUsageStats {
    pub cache: u64,
}

/// One container's memory statistics.
#[derive(Clone, Copy, PartialEq, Eq, Structural, Debug)]
pub struct MemoryStats {
    pub usage: u64,
    pub stats: MemoryUsageStats,
}

/// One network's cumulative byte counters for a container.
#[derive(Clone, Copy, PartialEq, Eq, Structural, Debug)]
pub struct NetworkStat {
    pub rx_bytes: u64,
    pub tx_bytes: u64,
}

/// One container's statistics as the runtime reports them: its name
/// (with the runtime's leading separator), processor and memory
/// statistics, and one byte-counter pair per attached network.
pub struct ContainerStats {
    pub name: String,
    pub cpu_stats: CPUStats,
    pub memory_stats: MemoryStats,
    pub networks: Vec<NetworkStat>,
}

/// The mathematical model of a `ContainerStats`.
pub ghost struct ContainerStatsView {
    pub name: Seq<char>,
    pub cpu_stats: CPUStats,
    pub memory_stats: MemoryStats,
    pub networks: Seq<NetworkStat>,
}

impl View for ContainerStats {
    type V = ContainerStatsView;

    open spec fn view(&self) -> ContainerStatsView {
        ContainerStatsView {
            name: self.name@,
            cpu_stats: self.cpu_stats,
            memory_stats: self.memory_stats,
            networks: self.networks@,
        }
    }
}

impl DeepView for ContainerStats {
    type V = ContainerStatsView;

    open spec fn deep_view(&self) -> ContainerStatsView {
        self@
    }
}

} // verus!
