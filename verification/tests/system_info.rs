use psh::convert::Wrap;
use psh::ebpf::{attach_action, same_text, AttachAction};
use psh::ebpf::{map_update_flag, BpfMapUpdateFlag, MapFlags, MapKey, MapKeyIter, PerfBufferKey};
use psh::interrupts::{parse_irq_number, InterruptDetails, InterruptType, IrqDetails};
use psh::process::{env_to_tuple, envs_to_vec, path_to_str};
use psh::rps::{rps_queue, RpsDetails, RpsQueue};

#[test]
fn irq_settings_from_sysfs_contents() {
    let irq = IrqDetails::from_files(
        12,
        Some("ffffffff,ffffffff,ffffffff,ffffffff,ffffffff\n"),
        Some("0-159\n"),
        Some("0\n"),
    );
    assert_eq!(irq.irq_number, 12);
    assert_eq!(irq.smp_affinity, Some("ffffffff,ffffffff,ffffffff,ffffffff,ffffffff".to_string()));
    assert_eq!(irq.smp_affinity_list, Some("0-159".to_string()));
    assert_eq!(irq.node, Some("0".to_string()));

    let irq = IrqDetails::from_files(
        9,
        Some("00000000,00ffffff,ffff0000,000000ff,ffffffff\n"),
        Some("0-39,80-119\n"),
        None,
    );
    assert_eq!(irq.smp_affinity, Some("00000000,00ffffff,ffff0000,000000ff,ffffffff".to_string()));
    assert_eq!(irq.smp_affinity_list, Some("0-39,80-119".to_string()));
    assert_eq!(irq.node, None);

    let irq = IrqDetails::new(1);
    assert_eq!((irq.irq_number, irq.smp_affinity, irq.smp_affinity_list, irq.node), (1, None, None, None));
}

#[test]
fn irq_numbers_from_directory_names() {
    assert_eq!(parse_irq_number("12"), Some(12));
    assert_eq!(parse_irq_number("0"), Some(0));
    assert_eq!(parse_irq_number("default_smp_affinity"), None);
    assert_eq!(parse_irq_number("4294967296"), None);
}

#[test]
fn interrupt_rows() {
    let row = InterruptDetails::new(vec![1, 2], InterruptType::Common(0), "IO-APIC 2-edge timer".to_string());
    assert_eq!(row.cpu_counts, vec![1, 2]);
    assert_eq!(row.interrupt_type, InterruptType::Common(0));
    assert_eq!(row.description, "IO-APIC 2-edge timer");
    let row = InterruptDetails::new(vec![], InterruptType::ArchSpecific("NMI".to_string()), String::new());
    assert_eq!(row.interrupt_type, InterruptType::ArchSpecific("NMI".to_string()));
}

#[test]
fn rps_queues() {
    assert_eq!(
        rps_queue("rx-0", Some("00000\n"), Some("0\n")),
        Some(RpsQueue { name: "rx-0".to_string(), cpus: Some("00000".to_string()), flow_cnt: Some("0".to_string()) })
    );
    assert_eq!(rps_queue("tx-0", Some("00000\n"), Some("0\n")), None);
    assert_eq!(rps_queue("r", None, None), None);
    assert_eq!(
        rps_queue("rx-3", None, Some(" 4096 ")),
        Some(RpsQueue { name: "rx-3".to_string(), cpus: None, flow_cnt: Some("4096".to_string()) })
    );
    let lo = RpsDetails::new("lo".to_string(), vec![rps_queue("rx-0", Some("00000\n"), Some("0\n")).unwrap()]);
    assert_eq!(
        lo,
        RpsDetails {
            dev: "lo".to_string(),
            queues: vec![RpsQueue { name: "rx-0".to_string(), cpus: Some("00000".to_string()), flow_cnt: Some("0".to_string()) }]
        }
    );
}

fn flags(any: bool, exist: bool, noexist: bool, lock: bool) -> MapFlags {
    MapFlags { bpf_any: any, bpf_exist: exist, bpf_noexist: noexist, bpf_f_lock: lock }
}

#[test]
fn map_update_flags() {
    assert_eq!(map_update_flag(flags(true, true, true, true)), Ok(BpfMapUpdateFlag::Any));
    assert_eq!(map_update_flag(flags(false, true, true, true)), Ok(BpfMapUpdateFlag::Exist));
    assert_eq!(map_update_flag(flags(false, false, true, true)), Ok(BpfMapUpdateFlag::NoExist));
    assert_eq!(map_update_flag(flags(false, false, false, true)), Ok(BpfMapUpdateFlag::Lock));
    assert_eq!(map_update_flag(flags(false, false, false, false)), Err("Invalid flags"));
}

#[test]
fn map_key_cursor() {
    let mut it = MapKeyIter::new(3, 4);
    assert_eq!(it.fd(), 3);
    assert_eq!(it.prev_key(), None);
    assert_eq!(it.next_buffer(), &vec![0u8; 4]);
    assert_eq!(it.record_next(0, vec![1, 0, 0, 0]), Some(vec![1, 0, 0, 0]));
    assert_eq!(it.prev_key(), Some(&vec![1, 0, 0, 0]));
    assert_eq!(it.record_next(-2, vec![9, 9, 9, 9]), None);
    assert_eq!(it.prev_key(), Some(&vec![1, 0, 0, 0]));
    assert_eq!(it.next_buffer(), &vec![1, 0, 0, 0]);
}

#[test]
fn keys_and_wraps() {
    assert_eq!(MapKey("events".to_string()), MapKey("events".to_string()));
    assert_eq!(PerfBufferKey(7).0, 7);
    assert_eq!(Wrap::new(5u32).into_inner(), 5);
}

#[test]
fn process_texts() {
    assert_eq!(path_to_str(b"/usr/bin/ls"), "/usr/bin/ls");
    assert_eq!(path_to_str(b"/tmp/\xffx"), "/tmp/\u{fffd}x");
    assert_eq!(env_to_tuple(b"HOME", b"/root"), ("HOME".to_string(), "/root".to_string()));
    let vars = vec![(b"A".to_vec(), b"1".to_vec()), (b"B".to_vec(), b"\xfe".to_vec())];
    assert_eq!(envs_to_vec(&vars), vec![("A".to_string(), "1".to_string()), ("B".to_string(), "\u{fffd}".to_string())]);
}

#[test]
fn attach_actions() {
    assert_eq!(attach_action("sockops", "/sys/fs/cgroup/test"), AttachAction::Cgroup);
    assert_eq!(attach_action("xdp", "eth0"), AttachAction::Xdp);
    assert_eq!(attach_action("perf_event", "x"), AttachAction::PerfEvent);
    assert_eq!(attach_action("kprobe/sys_open", "x"), AttachAction::Unsupported);
    assert_eq!(attach_action("xdp", ""), AttachAction::Nothing);
    assert_eq!(attach_action("bogus", ""), AttachAction::Nothing);
    assert!(same_text("xdp", "xdp"));
    assert!(!same_text("xdp", "xd"));
    assert!(!same_text("xdp", "xdq"));
}

#[test]
fn map_key_iteration_visits_each_key_then_stops() {
    // a map whose keys, in the kernel's order, are these
    let keys: Vec<Vec<u8>> = vec![vec![1, 0], vec![7, 0], vec![3, 9]];
    let kernel_next = |prev: Option<&Vec<u8>>| -> (i32, Vec<u8>) {
        let at = match prev {
            None => 0,
            Some(p) => match keys.iter().position(|k| k == p) {
                Some(i) => i + 1,
                None => 0,
            },
        };
        match keys.get(at) {
            Some(k) => (0, k.clone()),
            None => (-2, vec![0, 0]),
        }
    };
    let mut it = MapKeyIter::new(5, 2);
    let mut seen = Vec::new();
    for _ in 0..5 {
        let (ret, key) = kernel_next(it.prev_key());
        seen.push(it.record_next(ret, key));
    }
    assert_eq!(
        seen,
        vec![Some(vec![1, 0]), Some(vec![7, 0]), Some(vec![3, 9]), None, None]
    );
    assert_eq!(it.prev_key(), Some(&vec![3, 9]));
    assert_eq!(it.fd(), 5);
}
