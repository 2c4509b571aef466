//! The whole-number readings taken from one statistics sample of a
//! container; the CPU and memory percentages are computed from them.
use vstd::prelude::*;
use vstd::string::*;
use crate::text::{lowercase, spec_lowercase};

verus! {

/// The parts of a raw statistics sample that the dashboard reads.
pub struct RawStats {
    pub cpu_total: u64,
    pub precpu_total: u64,
    pub system_cpu: Option<u64>,
    pub presystem_cpu: Option<u64>,
    pub online_cpus: Option<u64>,
    pub mem_usage: Option<u64>,
    /// Page cache counted in the usage (cgroup v1 only).
    pub mem_cache: Option<u64>,
    pub mem_limit: Option<u64>,
    /// Received and transmitted bytes of each network interface.
    pub networks: Option<Vec<(u64, u64)>>,
    /// Operation name and byte count of each block I/O entry.
    pub block_io: Option<Vec<(String, u64)>>,
}

/// The readings of one sample.
#[derive(Clone, Copy, Debug, PartialEq, Eq, Structural)]
pub struct StatsReading {
    pub cpu_delta: u64,
    pub system_delta: u64,
    pub num_cpus: u64,
    pub mem_usage: u64,
    pub mem_limit: u64,
    pub net_rx: u64,
    pub net_tx: u64,
    pub block_read: u64,
    pub block_write: u64,
}

pub open spec fn or_zero(o: Option<u64>) -> nat {
    match o {
        Some(v) => v as nat,
        None => 0,
    }
}

/// `a - b`, or 0 when `b` is larger.
pub open spec fn saturating_diff(a: nat, b: nat) -> nat {
    if a >= b {
        (a - b) as nat
    } else {
        0
    }
}

/// Total received (`which == 0`) or transmitted bytes of the first `k`
/// interfaces.
pub open spec fn net_total(nets: Seq<(u64, u64)>, rx: bool, k: nat) -> nat
    decreases k,
{
    if k == 0 {
        0
    } else {
        net_total(nets, rx, (k - 1) as nat) + if rx {
            nets[k - 1].0 as nat
        } else {
            nets[k - 1].1 as nat
        }
    }
}

/// Total bytes of the first `k` block I/O entries whose operation, in lower
/// case, is `op`.
pub open spec fn block_total(entries: Seq<(Seq<char>, u64)>, op: Seq<char>, k: nat) -> nat
    decreases k,
{
    if k == 0 {
        0
    } else {
        block_total(entries, op, (k - 1) as nat) + if spec_lowercase(entries[k - 1].0) == op {
            entries[k - 1].1 as nat
        } else {
            0
        }
    }
}

pub open spec fn nets_view(o: Option<Vec<(u64, u64)>>) -> Seq<(u64, u64)> {
    match o {
        Some(v) => v@,
        None => Seq::empty(),
    }
}

pub open spec fn block_view(o: Option<Vec<(String, u64)>>) -> Seq<(Seq<char>, u64)> {
    match o {
        Some(v) => v@.map_values(|e: (String, u64)| (e.0@, e.1)),
        None => Seq::empty(),
    }
}

/// The totals of a sample fit in 64 bits (they are summed without wrapping).
pub open spec fn totals_fit(raw: RawStats) -> bool {
    let nets = nets_view(raw.networks);
    let blocks = block_view(raw.block_io);
    &&& net_total(nets, true, nets.len()) <= u64::MAX
    &&& net_total(nets, false, nets.len()) <= u64::MAX
    &&& block_total(blocks, "read"@, blocks.len()) <= u64::MAX
    &&& block_total(blocks, "write"@, blocks.len()) <= u64::MAX
}

/// The readings of a sample: CPU time deltas since the previous sample, the
/// memory in use less the page cache, the limit, and the network and block
/// I/O totals.
pub open spec fn reading_of(raw: RawStats) -> StatsReading {
    let nets = nets_view(raw.networks);
    let blocks = block_view(raw.block_io);
    StatsReading {
        cpu_delta: saturating_diff(raw.cpu_total as nat, raw.precpu_total as nat) as u64,
        system_delta: saturating_diff(or_zero(raw.system_cpu), or_zero(raw.presystem_cpu)) as u64,
        num_cpus: match raw.online_cpus {
            Some(n) => n,
            None => 1,
        },
        mem_usage: saturating_diff(or_zero(raw.mem_usage), or_zero(raw.mem_cache)) as u64,
        mem_limit: or_zero(raw.mem_limit) as u64,
        net_rx: net_total(nets, true, nets.len()) as u64,
        net_tx: net_total(nets, false, nets.len()) as u64,
        block_read: block_total(blocks, "read"@, blocks.len()) as u64,
        block_write: block_total(blocks, "write"@, blocks.len()) as u64,
    }
}

proof fn lemma_net_total_grows(nets: Seq<(u64, u64)>, rx: bool, k: nat, k2: nat)
    requires
        k <= k2 <= nets.len(),
    ensures
        net_total(nets, rx, k) <= net_total(nets, rx, k2),
    decreases k2,
{
    if k2 > k {
        lemma_net_total_grows(nets, rx, k, (k2 - 1) as nat);
    }
}

proof fn lemma_block_total_grows(entries: Seq<(Seq<char>, u64)>, op: Seq<char>, k: nat, k2: nat)
    requires
        k <= k2 <= entries.len(),
    ensures
        block_total(entries, op, k) <= block_total(entries, op, k2),
    decreases k2,
{
    if k2 > k {
        lemma_block_total_grows(entries, op, k, (k2 - 1) as nat);
    }
}

fn net_totals(nets: &Vec<(u64, u64)>) -> (r: Option<(u64, u64)>)
    ensures
        r is Some <==> (net_total(nets@, true, nets@.len()) <= u64::MAX
            && net_total(nets@, false, nets@.len()) <= u64::MAX),
        r matches Some(t) ==> t.0 == net_total(nets@, true, nets@.len())
            && t.1 == net_total(nets@, false, nets@.len()),
{
    let mut rx: u64 = 0;
    let mut tx: u64 = 0;
    let mut i: usize = 0;
    while i < nets.len()
        invariant
            i <= nets.len(),
            rx == net_total(nets@, true, i as nat),
            tx == net_total(nets@, false, i as nat),
        decreases nets.len() - i,
    {
        proof {
            lemma_net_total_grows(nets@, true, (i + 1) as nat, nets@.len());
            lemma_net_total_grows(nets@, false, (i + 1) as nat, nets@.len());
        }
        match (rx.checked_add(nets[i].0), tx.checked_add(nets[i].1)) {
            (Some(r), Some(t)) => {
                rx = r;
                tx = t;
            },
            _ => {
                return None;
            },
        }
        i = i + 1;
    }
    Some((rx, tx))
}

fn block_totals(entries: &Vec<(String, u64)>) -> (r: Option<(u64, u64)>)
    ensures
        r is Some <==> (block_total(block_view(Some(*entries)), "read"@, entries@.len()) <= u64::MAX
            && block_total(block_view(Some(*entries)), "write"@, entries@.len()) <= u64::MAX),
        r matches Some(t) ==> t.0 == block_total(block_view(Some(*entries)), "read"@, entries@.len())
            && t.1 == block_total(block_view(Some(*entries)), "write"@, entries@.len()),
{
    let ghost bv = block_view(Some(*entries));
    let mut read: u64 = 0;
    let mut write: u64 = 0;
    let mut i: usize = 0;
    while i < entries.len()
        invariant
            i <= entries.len(),
            bv == block_view(Some(*entries)),
            bv.len() == entries@.len(),
            read == block_total(bv, "read"@, i as nat),
            write == block_total(bv, "write"@, i as nat),
        decreases entries.len() - i,
    {
        proof {
            lemma_block_total_grows(bv, "read"@, (i + 1) as nat, entries@.len());
            lemma_block_total_grows(bv, "write"@, (i + 1) as nat, entries@.len());
        }
        assert(bv[i as int] == (entries@[i as int].0@, entries@[i as int].1));
        proof {
            reveal_strlit("read");
            reveal_strlit("write");
            assert("read"@[0] != "write"@[0]);
        }
        let op = lowercase(entries[i].0.as_str());
        if op == String::from_str("read") {
            match read.checked_add(entries[i].1) {
                Some(r) => {
                    read = r;
                },
                None => {
                    return None;
                },
            }
        } else if op == String::from_str("write") {
            match write.checked_add(entries[i].1) {
                Some(w) => {
                    write = w;
                },
                None => {
                    return None;
                },
            }
        }
        i = i + 1;
    }
    Some((read, write))
}

/// Takes the readings from a sample, or `None` when a network or block I/O
/// total does not fit in 64 bits.
pub fn try_read_sample(raw: &RawStats) -> (r: Option<StatsReading>)
    ensures
        r == (if totals_fit(*raw) {
            Some(reading_of(*raw))
        } else {
            None::<StatsReading>
        }),
{
    let cpu_delta = raw.cpu_total.saturating_sub(raw.precpu_total);
    let system = match raw.system_cpu {
        Some(v) => v,
        None => 0,
    };
    let presystem = match raw.presystem_cpu {
        Some(v) => v,
        None => 0,
    };
    let usage = match raw.mem_usage {
        Some(v) => v,
        None => 0,
    };
    let cache = match raw.mem_cache {
        Some(v) => v,
        None => 0,
    };
    let nets = match &raw.networks {
        Some(n) => net_totals(n),
        None => Some((0, 0)),
    };
    let blocks = match &raw.block_io {
        Some(b) => block_totals(b),
        None => Some((0, 0)),
    };
    match (nets, blocks) {
        (Some((net_rx, net_tx)), Some((block_read, block_write))) => Some(
            StatsReading {
                cpu_delta: cpu_delta,
                system_delta: system.saturating_sub(presystem),
                num_cpus: match raw.online_cpus {
                    Some(n) => n,
                    None => 1,
                },
                mem_usage: usage.saturating_sub(cache),
                mem_limit: match raw.mem_limit {
                    Some(v) => v,
                    None => 0,
                },
                net_rx: net_rx,
                net_tx: net_tx,
                block_read: block_read,
                block_write: block_write,
            },
        ),
        _ => None,
    }
}

/// Takes the readings from a sample whose totals fit in 64 bits.
pub fn read_sample(raw: &RawStats) -> (r: StatsReading)
    requires
        totals_fit(*raw),
    ensures
        r == reading_of(*raw),
{
    match try_read_sample(raw) {
        Some(r) => r,
        None => StatsReading {
            cpu_delta: 0,
            system_delta: 0,
            num_cpus: 0,
            mem_usage: 0,
            mem_limit: 0,
            net_rx: 0,
            net_tx: 0,
            block_read: 0,
            block_write: 0,
        },
    }
}

/// The memory reading is the usage less the page cache: added back to the
/// cache it gives the usage whenever the usage is at least the cache, and it
/// is 0 otherwise. The limit is read as reported (0 when absent).
pub proof fn law_memory_reading(raw: RawStats)
    ensures
        or_zero(raw.mem_usage) >= or_zero(raw.mem_cache) ==> reading_of(raw).mem_usage + or_zero(raw.mem_cache)
            == or_zero(raw.mem_usage),
        or_zero(raw.mem_usage) < or_zero(raw.mem_cache) ==> reading_of(raw).mem_usage == 0,
        reading_of(raw).mem_limit == or_zero(raw.mem_limit),
        reading_of(raw).cpu_delta + raw.precpu_total == raw.cpu_total || (raw.cpu_total < raw.precpu_total
            && reading_of(raw).cpu_delta == 0),
{
}

} // verus!
