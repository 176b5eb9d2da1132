//! Verified core of a host-side performance data collector: the DWARF based
//! compact unwind table builder and ELF symbol extractor used by the eBPF
//! profiler, and the pure parts of the system information collectors.

pub mod binary_object;
pub mod text;
pub mod linux_version;
pub mod interrupts;
pub mod rps;
pub mod ebpf;
pub mod convert;
pub mod process;
