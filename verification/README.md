# psh

The verified core of a host-side performance data collector for cloud
services (eBPF and `perf_event_open` based), written in Verus.

* `src/binary_object/` — the compact unwind table that the eBPF stack
  unwinder reads, built from the rows (and the row and entry failures) that
  the walk over an ELF file's `.eh_frame` hands over; the text of the DWARF
  dump (CIEs, FDEs, call frame instructions and expressions) built from
  decoded entries; and the ELF symbol reader used to symbolize addresses.
* `src/text.rs`, `src/linux_version.rs` — trimming of sysfs/procfs values,
  unsigned decimal numbers, and the kernel version of `linux/version.h`.
* `src/interrupts.rs`, `src/rps.rs`, `src/process.rs`, `src/ebpf.rs`,
  `src/convert.rs` — the data and decisions of the system, eBPF and perf
  collectors.
* `app/` — the file, directory and environment access, the walk over the
  call frame information with `gimli` (which turns each row or failure into
  an event for the library), and the decoding of the entries that the dump
  shows, whose text it writes.
* `tests/` — tests of the library on concrete values.
