//! What the system collector reports of the interrupts of the machine: the
//! per-CPU counts of `/proc/interrupts` and the settings of each interrupt
//! line under `/proc/irq`.

use vstd::prelude::*;
use vstd::string::StringSliceAdditionalSpecFns;

use crate::text::{parse_unsigned, spec_parse_unsigned, trim, trim_chars};

verus! {

/// The kind of a row of `/proc/interrupts`: a numbered interrupt line or an
/// architecture specific one (`NMI`, `LOC`, ...).
#[derive(Debug, PartialEq, Eq)]
pub enum InterruptType {
    Common(u32),
    ArchSpecific(String),
}

/// One row of `/proc/interrupts`.
#[derive(Debug)]
pub struct InterruptDetails {
    pub cpu_counts: Vec<u64>,
    pub interrupt_type: InterruptType,
    pub description: String,
}

impl InterruptDetails {
    /// A row with the given per-CPU counts, kind and description.
    pub fn new(cpu_counts: Vec<u64>, interrupt_type: InterruptType, description: String) -> (r:
        Self)
        ensures
            r.cpu_counts@ == cpu_counts@,
            r.interrupt_type == interrupt_type,
            r.description@ == description@,
    {
        Self { cpu_counts, interrupt_type, description }
    }
}

/// The settings of one interrupt line under `/proc/irq/<number>`.
#[derive(Debug)]
pub struct IrqDetails {
    pub irq_number: u32,
    pub smp_affinity: Option<String>,
    pub smp_affinity_list: Option<String>,
    pub node: Option<String>,
}

/// The trimmed text of an optional file content.
pub open spec fn trimmed(content: Option<Seq<char>>) -> Option<Seq<char>> {
    match content {
        Some(c) => Some(trim_chars(c)),
        None => None,
    }
}

pub open spec fn opt_view(s: Option<String>) -> Option<Seq<char>> {
    match s {
        Some(t) => Some(t@),
        None => None,
    }
}

pub open spec fn opt_str_view(s: Option<&str>) -> Option<Seq<char>> {
    match s {
        Some(t) => Some(t@),
        None => None,
    }
}

/// The trimmed copy of an optional text.
pub fn trim_option(content: Option<&str>) -> (r: Option<String>)
    ensures
        opt_view(r) == trimmed(opt_str_view(content)),
{
    match content {
        Some(c) => Some(trim(c)),
        None => None,
    }
}

impl IrqDetails {
    /// An interrupt line of which no setting is known yet.
    pub fn new(irq_number: u32) -> (r: Self)
        ensures
            r.irq_number == irq_number,
            r.smp_affinity is None,
            r.smp_affinity_list is None,
            r.node is None,
    {
        Self { irq_number, smp_affinity: None, smp_affinity_list: None, node: None }
    }

    /// The settings of interrupt line `irq_number` from the contents of its
    /// `smp_affinity`, `smp_affinity_list` and `node` files (none where the
    /// file does not exist), each with its surrounding white space removed.
    pub fn from_files(
        irq_number: u32,
        smp_affinity: Option<&str>,
        smp_affinity_list: Option<&str>,
        node: Option<&str>,
    ) -> (r: Self)
        ensures
            r.irq_number == irq_number,
            opt_view(r.smp_affinity) == trimmed(opt_str_view(smp_affinity)),
            opt_view(r.smp_affinity_list) == trimmed(opt_str_view(smp_affinity_list)),
            opt_view(r.node) == trimmed(opt_str_view(node)),
    {
        let mut irq_current = IrqDetails::new(irq_number);
        irq_current.smp_affinity = trim_option(smp_affinity);
        irq_current.smp_affinity_list = trim_option(smp_affinity_list);
        irq_current.node = trim_option(node);
        irq_current
    }
}

/// Reads the number of an interrupt line from the name of its directory under
/// `/proc/irq`, as `str::parse::<u32>` does.
pub fn parse_irq_number(name: &str) -> (r: Option<u32>)
    ensures
        match spec_parse_unsigned(name.spec_bytes(), u32::MAX as nat) {
            Some(v) => r == Some(v as u32),
            None => r is None,
        },
{
    match parse_unsigned(name.as_bytes(), u32::MAX as u64) {
        Some(v) => Some(v as u32),
        None => None,
    }
}

} // verus!
