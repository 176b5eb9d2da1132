//! Receive packet steering (RPS) settings of the network devices, as found
//! under `/sys/class/net/<device>/queues/rx-*`.

use vstd::prelude::*;

use crate::interrupts::{opt_str_view, opt_view, trim_option, trimmed};

verus! {

/// The RPS settings of one receive queue.
#[derive(Debug, PartialEq, Eq)]
pub struct RpsQueue {
    pub name: String,
    pub cpus: Option<String>,
    pub flow_cnt: Option<String>,
}

/// The receive queues of one network device.
#[derive(Debug, PartialEq, Eq)]
pub struct RpsDetails {
    pub dev: String,
    pub queues: Vec<RpsQueue>,
}

/// Whether a queue directory name is that of a receive queue (starts with
/// `rx`).
pub open spec fn is_rx_queue_name(name: Seq<char>) -> bool {
    name.len() >= 2 && name[0] == 'r' && name[1] == 'x'
}

/// The RPS settings of queue directory `name` from the contents of its
/// `rps_cpus` and `rps_flow_cnt` files (none where a file could not be
/// read), trimmed; none for a queue that is not a receive queue.
pub fn rps_queue(name: &str, cpus: Option<&str>, flow_cnt: Option<&str>) -> (r: Option<RpsQueue>)
    ensures
        is_rx_queue_name(name@) <==> r is Some,
        r matches Some(q) ==> q.name@ == name@ && opt_view(q.cpus) == trimmed(opt_str_view(cpus))
            && opt_view(q.flow_cnt) == trimmed(opt_str_view(flow_cnt)),
{
    let n = name.unicode_len();
    if n < 2 || name.get_char(0) != 'r' || name.get_char(1) != 'x' {
        return None;
    }
    Some(
        RpsQueue {
            name: String::from_str(name),
            cpus: trim_option(cpus),
            flow_cnt: trim_option(flow_cnt),
        },
    )
}

impl RpsDetails {
    /// The RPS settings of device `dev` with the given receive queues.
    pub fn new(dev: String, queues: Vec<RpsQueue>) -> (r: Self)
        ensures
            r.dev@ == dev@,
            r.queues@ == queues@,
    {
        RpsDetails { dev, queues }
    }
}

} // verus!
