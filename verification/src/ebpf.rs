//! State of the eBPF host interface that does not live in the kernel: the
//! keys by which maps and perf buffers are found again, the cursor over the
//! keys of a map, and the choice of the update flag of a map operation.

use vstd::prelude::*;

verus! {

/// The key by which a map of a loaded BPF object is found again: its name.
#[derive(Debug, PartialEq, Eq, Clone, Hash)]
pub struct MapKey(pub String);

/// The key by which a perf buffer is found again: the address of its libbpf
/// object.
#[derive(Debug, PartialEq, Eq, Clone, Copy, Hash, Structural)]
pub struct PerfBufferKey(pub u64);

/// A cursor over the keys of a BPF map: the key returned last (none before
/// the first) and the buffer the next key is read into.
#[derive(Debug)]
pub struct MapKeyIter {
    fd: i32,
    prev: Option<Vec<u8>>,
    next: Vec<u8>,
}

/// The mathematical value of a [`MapKeyIter`].
pub struct MapKeyIterView {
    pub fd: i32,
    pub prev: Option<Seq<u8>>,
    pub next: Seq<u8>,
}

impl View for MapKeyIter {
    type V = MapKeyIterView;

    closed spec fn view(&self) -> MapKeyIterView {
        MapKeyIterView {
            fd: self.fd,
            prev: match self.prev {
                Some(p) => Some(p@),
                None => None,
            },
            next: self.next@,
        }
    }
}

impl MapKeyIter {
    /// A cursor over the keys of the map with file descriptor `fd`, whose keys
    /// are `key_size` bytes long; it starts before the first key.
    pub fn new(fd: i32, key_size: u32) -> (r: Self)
        ensures
            r@.fd == fd,
            r@.prev is None,
            r@.next == Seq::new(key_size as nat, |i: int| 0u8),
    {
        let mut next: Vec<u8> = Vec::new();
        let mut i: u32 = 0;
        while i < key_size
            invariant
                i <= key_size,
                next@ == Seq::new(i as nat, |k: int| 0u8),
            decreases key_size - i,
        {
            next.push(0u8);
            i = i + 1;
            proof {
                assert(next@ =~= Seq::new(i as nat, |k: int| 0u8));
            }
        }
        Self { fd, prev: None, next }
    }

    /// The file descriptor of the map.
    pub fn fd(&self) -> (r: i32)
        ensures
            r == self@.fd,
    {
        self.fd
    }

    /// The key returned last, from which the next key is looked up.
    pub fn prev_key(&self) -> (r: Option<&Vec<u8>>)
        ensures
            match r {
                Some(p) => self@.prev == Some(p@),
                None => self@.prev is None,
            },
    {
        match &self.prev {
            Some(p) => Some(p),
            None => None,
        }
    }

    /// The buffer that the next key is read into.
    pub fn next_buffer(&self) -> (r: &Vec<u8>)
        ensures
            r@ == self@.next,
    {
        &self.next
    }

    /// Takes the outcome of looking up the key after the previous one
    /// (`bpf_map_get_next_key`): on success (`ret == 0`) the key read becomes
    /// the previous key and is returned; otherwise the iteration is over and
    /// the cursor is left as it was.
    pub fn record_next(&mut self, ret: i32, key: Vec<u8>) -> (r: Option<Vec<u8>>)
        ensures
            (final(self)@, key_view(r)) == spec_record_next(
                old(self)@,
                if ret == 0 {
                    Some(key@)
                } else {
                    None
                },
            ),
            ret != 0 ==> r is None && final(self)@ == old(self)@,
            ret == 0 ==> r is Some && r->Some_0@ == key@ && final(self)@ == (MapKeyIterView {
                fd: old(self)@.fd,
                prev: Some(key@),
                next: key@,
            }),
    {
        if ret != 0 {
            None
        } else {
            let copy = key.clone();
            let result = key.clone();
            proof {
                assert(copy@ =~= key@);
                assert(result@ =~= key@);
            }
            self.prev = Some(copy);
            self.next = key;
            Some(result)
        }
    }
}

/// The bytes of a key where there is one.
pub open spec fn key_view(key: Option<Vec<u8>>) -> Option<Seq<u8>> {
    match key {
        Some(k) => Some(k@),
        None => None,
    }
}

/// One step of a [`MapKeyIter`]: given what the lookup of the key after the
/// previous one answered (`None` where it failed), the cursor afterwards and
/// the key returned.
pub open spec fn spec_record_next(cursor: MapKeyIterView, answer: Option<Seq<u8>>) -> (
    MapKeyIterView,
    Option<Seq<u8>>,
) {
    match answer {
        None => (cursor, None),
        Some(k) => (MapKeyIterView { fd: cursor.fd, prev: Some(k), next: k }, Some(k)),
    }
}

/// What `bpf_map_get_next_key` answers for a map whose keys, in the order in
/// which the kernel walks them, are `keys` (the map not changed meanwhile):
/// the first key where there is no previous key or the previous key is not in
/// the map, the key after the previous one, and a failure after the last key
/// or for an empty map.
pub open spec fn kernel_next_key(keys: Seq<Seq<u8>>, prev: Option<Seq<u8>>) -> Option<Seq<u8>> {
    match prev {
        Some(k) if keys.contains(k) => if keys.index_of(k) + 1 < keys.len() {
            Some(keys[keys.index_of(k) + 1])
        } else {
            None
        },
        _ => if keys.len() > 0 {
            Some(keys[0])
        } else {
            None
        },
    }
}

/// The cursor after `n` calls of `next` on a map with the keys `keys`, and
/// what those calls returned, in order.
pub open spec fn iterate_keys(cursor: MapKeyIterView, keys: Seq<Seq<u8>>, n: nat) -> (
    MapKeyIterView,
    Seq<Option<Seq<u8>>>,
)
    decreases n,
{
    if n == 0 {
        (cursor, Seq::empty())
    } else {
        let (before, returned) = iterate_keys(cursor, keys, (n - 1) as nat);
        let (after, key) = spec_record_next(before, kernel_next_key(keys, before.prev));
        (after, returned.push(key))
    }
}

/// Iterating over the keys of a map from a fresh cursor returns each key
/// once, in the kernel's order, and then nothing on every later call; the
/// cursor keeps the key returned last.
pub proof fn law_key_iteration_visits_each_key(
    cursor: MapKeyIterView,
    keys: Seq<Seq<u8>>,
    n: nat,
)
    requires
        cursor.prev is None,
        keys.no_duplicates(),
    ensures
        iterate_keys(cursor, keys, n).1.len() == n,
        forall|j: int|
            0 <= j < n ==> #[trigger] iterate_keys(cursor, keys, n).1[j] == (if j < keys.len() {
                Some(keys[j])
            } else {
                None::<Seq<u8>>
            }),
        iterate_keys(cursor, keys, n).0.prev == (if n == 0 || keys.len() == 0 {
            None::<Seq<u8>>
        } else if n <= keys.len() {
            Some(keys[n - 1])
        } else {
            Some(keys.last())
        }),
        iterate_keys(cursor, keys, n).0.fd == cursor.fd,
    decreases n,
{
    if n > 0 {
        law_key_iteration_visits_each_key(cursor, keys, (n - 1) as nat);
        let (before, returned) = iterate_keys(cursor, keys, (n - 1) as nat);
        if n - 1 > 0 && keys.len() > 0 {
            let i: int = if n - 1 <= keys.len() {
                n - 2
            } else {
                keys.len() - 1
            };
            assert(before.prev == Some(keys[i]));
            assert(keys.contains(keys[i]));
            assert(keys.index_of(keys[i]) == i);
        }
        let (after, key) = spec_record_next(before, kernel_next_key(keys, before.prev));
        assert(iterate_keys(cursor, keys, n).1 == returned.push(key));
        assert forall|j: int| 0 <= j < n implies #[trigger] iterate_keys(cursor, keys, n).1[j] == (
        if j < keys.len() {
            Some(keys[j])
        } else {
            None::<Seq<u8>>
        }) by {
            if j < n - 1 {
                assert(returned.push(key)[j] == returned[j]);
            }
        }
    }
}

/// The flags that a guest passes with a map operation.
#[derive(Debug, Clone, Copy, PartialEq, Eq, Structural)]
pub struct MapFlags {
    pub bpf_any: bool,
    pub bpf_noexist: bool,
    pub bpf_exist: bool,
    pub bpf_f_lock: bool,
}

/// The single update flag handed to libbpf for a map operation.
#[derive(Debug, Clone, Copy, PartialEq, Eq, Structural)]
pub enum BpfMapUpdateFlag {
    Any,
    Exist,
    NoExist,
    Lock,
}

/// The update flag of a map operation: the first of `BPF_ANY`, `BPF_EXIST`,
/// `BPF_NOEXIST` and `BPF_F_LOCK` that is set; an error where none is.
pub fn map_update_flag(flags: MapFlags) -> (r: Result<BpfMapUpdateFlag, &'static str>)
    ensures
        flags.bpf_any ==> r == Ok::<BpfMapUpdateFlag, &'static str>(BpfMapUpdateFlag::Any),
        !flags.bpf_any && flags.bpf_exist ==> r == Ok::<BpfMapUpdateFlag, &'static str>(
            BpfMapUpdateFlag::Exist,
        ),
        !flags.bpf_any && !flags.bpf_exist && flags.bpf_noexist ==> r == Ok::<
            BpfMapUpdateFlag,
            &'static str,
        >(BpfMapUpdateFlag::NoExist),
        !flags.bpf_any && !flags.bpf_exist && !flags.bpf_noexist && flags.bpf_f_lock ==> r
            == Ok::<BpfMapUpdateFlag, &'static str>(BpfMapUpdateFlag::Lock),
        !flags.bpf_any && !flags.bpf_exist && !flags.bpf_noexist && !flags.bpf_f_lock ==> r is Err
            && r->Err_0@ == "Invalid flags"@,
{
    if flags.bpf_any {
        Ok(BpfMapUpdateFlag::Any)
    } else if flags.bpf_exist {
        Ok(BpfMapUpdateFlag::Exist)
    } else if flags.bpf_noexist {
        Ok(BpfMapUpdateFlag::NoExist)
    } else if flags.bpf_f_lock {
        Ok(BpfMapUpdateFlag::Lock)
    } else {
        Err("Invalid flags")
    }
}

/// Whether two texts are equal, character by character.
pub fn same_text(a: &str, b: &str) -> (r: bool)
    ensures
        r == (a@ == b@),
{
    let n = a.unicode_len();
    if n != b.unicode_len() {
        return false;
    }
    let mut i: usize = 0;
    while i < n
        invariant
            n == a@.len(),
            n == b@.len(),
            i <= n,
            forall|k: int| 0 <= k < i ==> a@[k] == b@[k],
        decreases n - i,
    {
        if a.get_char(i) != b.get_char(i) {
            return false;
        }
        i = i + 1;
    }
    proof {
        assert(a@ =~= b@);
    }
    true
}

/// How a program of a loaded BPF object is attached.
#[derive(Debug, Clone, Copy, PartialEq, Eq, Structural)]
pub enum AttachAction {
    /// No target was given: the program is left unattached.
    Nothing,
    /// A `sockops` program: attached to the cgroup whose directory the target
    /// names.
    Cgroup,
    /// An `xdp` program: attached to the network interface the target names.
    Xdp,
    /// A `perf_event` program: attached to the given perf event.
    PerfEvent,
    /// A program of any other section cannot be attached.
    Unsupported,
}

/// How a program in ELF section `section` is attached to `target`: nothing
/// to do without a target; else by the section, `sockops`, `xdp` or
/// `perf_event`, any other section being unsupported.
pub fn attach_action(section: &str, target: &str) -> (r: AttachAction)
    ensures
        target@.len() == 0 ==> r == AttachAction::Nothing,
        target@.len() != 0 ==> r == (if section@ == "sockops"@ {
            AttachAction::Cgroup
        } else if section@ == "xdp"@ {
            AttachAction::Xdp
        } else if section@ == "perf_event"@ {
            AttachAction::PerfEvent
        } else {
            AttachAction::Unsupported
        }),
{
    if target.is_empty() {
        AttachAction::Nothing
    } else if same_text(section, "sockops") {
        AttachAction::Cgroup
    } else if same_text(section, "xdp") {
        AttachAction::Xdp
    } else if same_text(section, "perf_event") {
        AttachAction::PerfEvent
    } else {
        AttachAction::Unsupported
    }
}

} // verus!
