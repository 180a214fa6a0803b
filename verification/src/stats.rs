//! Counter-delta stats engine: derives UI-facing container statistics
//! from two time-ordered raw counter snapshots of one container.
//!
//! Percentages are reported in hundredths of one percent (basis
//! points), so 2500 means 25.00%.  Working in integers keeps every
//! formula exact; a UI layer may divide by 100 for display.

use vstd::prelude::*;

verus! {

/// Cumulative receive/transmit byte counters of one network interface.
#[derive(Clone, Debug)]
pub struct NetInterfaceIo {
    pub rx_bytes: u64,
    pub tx_bytes: u64,
}

/// One block-operation record: the operation kind as raw bytes
/// (e.g. `read` or `Write`) and the cumulative byte count for it.
#[derive(Clone, Debug)]
pub struct BlockOpIo {
    pub op_kind: Vec<u8>,
    pub bytes: u64,
}

/// One point-in-time reading of a container's cumulative resource
/// counters.  Fields the runtime may leave unreported are options;
/// the engine applies the documented defaults.
#[derive(Clone, Debug)]
pub struct RawCounterSnapshot {
    pub cpu_total: u64,
    pub system_total: Option<u64>,
    pub online_cpus: Option<u64>,
    pub memory_usage: Option<u64>,
    pub memory_limit: Option<u64>,
    pub networks: Option<Vec<NetInterfaceIo>>,
    pub block_ops: Option<Vec<BlockOpIo>>,
}

/// Derived, UI-facing statistics record for one container.
#[derive(Clone, Debug)]
pub struct ContainerStats {
    pub id: String,
    pub name: String,
    /// CPU load in basis points (hundredths of a percent); can exceed
    /// 10000 on multi-core systems.
    pub cpu_percentage_bp: u64,
    pub memory_usage: u64,
    pub memory_limit: u64,
    /// Memory use in basis points of the limit; 0 when the limit is 0.
    pub memory_percentage_bp: u64,
    pub network_rx: u64,
    pub network_tx: u64,
    pub block_read: u64,
    pub block_write: u64,
}

/// `n` clamped into the `u64` range.
pub open spec fn sat64(n: int) -> u64 {
    if n > u64::MAX {
        u64::MAX
    } else if n < 0 {
        0
    } else {
        n as u64
    }
}

/// Saturating difference of two counters.
pub open spec fn spec_delta(curr: u64, prev: u64) -> nat {
    if curr > prev {
        (curr - prev) as nat
    } else {
        0
    }
}

/// A system-wide CPU counter defaults to 0 when unreported.
pub open spec fn spec_system_total(s: RawCounterSnapshot) -> u64 {
    match s.system_total {
        Some(v) => v,
        None => 0,
    }
}

/// The online-CPU count defaults to 1 when unreported.
pub open spec fn spec_online_cpus(s: RawCounterSnapshot) -> u64 {
    match s.online_cpus {
        Some(v) => v,
        None => 1,
    }
}

pub open spec fn spec_memory_usage(s: RawCounterSnapshot) -> u64 {
    match s.memory_usage {
        Some(v) => v,
        None => 0,
    }
}

pub open spec fn spec_memory_limit(s: RawCounterSnapshot) -> u64 {
    match s.memory_limit {
        Some(v) => v,
        None => 0,
    }
}

pub open spec fn spec_networks(s: RawCounterSnapshot) -> Seq<NetInterfaceIo> {
    match s.networks {
        Some(v) => v@,
        None => Seq::empty(),
    }
}

pub open spec fn spec_block_ops(s: RawCounterSnapshot) -> Seq<BlockOpIo> {
    match s.block_ops {
        Some(v) => v@,
        None => Seq::empty(),
    }
}

/// CPU load in basis points: the fraction of the system-wide CPU-tick
/// budget consumed by the container, scaled by the core count, in
/// hundredths of a percent; 0 unless both deltas are positive.
pub open spec fn spec_cpu_bp(cpu_delta: nat, system_delta: nat, cpus: nat) -> nat {
    if cpu_delta > 0 && system_delta > 0 {
        (cpu_delta * cpus * 10000) / system_delta
    } else {
        0
    }
}

/// Memory use in basis points of the limit; 0 when the limit is 0.
pub open spec fn spec_memory_bp(usage: nat, limit: nat) -> nat {
    if limit > 0 {
        (usage * 10000) / limit
    } else {
        0
    }
}

/// Total received bytes over all reported interfaces.
pub open spec fn spec_rx_total(s: Seq<NetInterfaceIo>) -> nat
    decreases s.len(),
{
    if s.len() == 0 {
        0
    } else {
        spec_rx_total(s.drop_last()) + s.last().rx_bytes as nat
    }
}

/// Total transmitted bytes over all reported interfaces.
pub open spec fn spec_tx_total(s: Seq<NetInterfaceIo>) -> nat
    decreases s.len(),
{
    if s.len() == 0 {
        0
    } else {
        spec_tx_total(s.drop_last()) + s.last().tx_bytes as nat
    }
}

/// ASCII lowercasing of one byte.
pub open spec fn spec_lower_byte(b: u8) -> u8 {
    if 65 <= b && b <= 90 {
        (b + 32) as u8
    } else {
        b
    }
}

/// Does the operation kind match `read`, ignoring ASCII case?
pub open spec fn spec_is_read_kind(op: Seq<u8>) -> bool {
    op.map(|_i: int, b: u8| spec_lower_byte(b)) == seq![114u8, 101u8, 97u8, 100u8]
}

/// Does the operation kind match `write`, ignoring ASCII case?
pub open spec fn spec_is_write_kind(op: Seq<u8>) -> bool {
    op.map(|_i: int, b: u8| spec_lower_byte(b)) == seq![119u8, 114u8, 105u8, 116u8, 101u8]
}

/// Total bytes of the block operations whose kind matches `read`.
pub open spec fn spec_block_read_total(s: Seq<BlockOpIo>) -> nat
    decreases s.len(),
{
    if s.len() == 0 {
        0
    } else {
        spec_block_read_total(s.drop_last()) + if spec_is_read_kind(s.last().op_kind@) {
            s.last().bytes as nat
        } else {
            0
        }
    }
}

/// Total bytes of the block operations whose kind matches `write`.
pub open spec fn spec_block_write_total(s: Seq<BlockOpIo>) -> nat
    decreases s.len(),
{
    if s.len() == 0 {
        0
    } else {
        spec_block_write_total(s.drop_last()) + if spec_is_write_kind(s.last().op_kind@) {
            s.last().bytes as nat
        } else {
            0
        }
    }
}

/// Everything the counter-delta engine promises of a derived record.
pub open spec fn stats_correct(
    r: ContainerStats,
    id: Seq<char>,
    name: Seq<char>,
    prev: RawCounterSnapshot,
    curr: RawCounterSnapshot,
) -> bool {
    &&& r.id@ == id
    &&& r.name@ == name
    &&& r.cpu_percentage_bp == sat64(
        spec_cpu_bp(
            spec_delta(curr.cpu_total, prev.cpu_total),
            spec_delta(spec_system_total(curr), spec_system_total(prev)),
            spec_online_cpus(curr) as nat,
        ) as int,
    )
    &&& r.memory_usage == spec_memory_usage(curr)
    &&& r.memory_limit == spec_memory_limit(curr)
    &&& r.memory_percentage_bp == sat64(
        spec_memory_bp(spec_memory_usage(curr) as nat, spec_memory_limit(curr) as nat) as int,
    )
    &&& r.network_rx == sat64(spec_rx_total(spec_networks(curr)) as int)
    &&& r.network_tx == sat64(spec_tx_total(spec_networks(curr)) as int)
    &&& r.block_read == sat64(spec_block_read_total(spec_block_ops(curr)) as int)
    &&& r.block_write == sat64(spec_block_write_total(spec_block_ops(curr)) as int)
}

/// ASCII-lowercase one byte.
fn lower_byte(b: u8) -> (r: u8)
    ensures
        r == spec_lower_byte(b),
{
    if 65 <= b && b <= 90 {
        b + 32
    } else {
        b
    }
}

/// Does the operation kind match `read`, ignoring ASCII case?
fn is_read_kind(op: &Vec<u8>) -> (r: bool)
    ensures
        r == spec_is_read_kind(op@),
{
    let r = op.len() == 4 && lower_byte(op[0]) == 114 && lower_byte(op[1]) == 101 && lower_byte(
        op[2],
    ) == 97 && lower_byte(op[3]) == 100;
    proof {
        let mapped = op@.map(|_i: int, b: u8| spec_lower_byte(b));
        let read_kind = seq![114u8, 101u8, 97u8, 100u8];
        assert(mapped.len() == op@.len());
        if r {
            assert(mapped =~= read_kind);
        } else if mapped == read_kind {
            assert(mapped.len() == 4);
            assert(mapped[0] == 114 && mapped[1] == 101 && mapped[2] == 97 && mapped[3] == 100);
        }
    }
    r
}

/// Does the operation kind match `write`, ignoring ASCII case?
fn is_write_kind(op: &Vec<u8>) -> (r: bool)
    ensures
        r == spec_is_write_kind(op@),
{
    let r = op.len() == 5 && lower_byte(op[0]) == 119 && lower_byte(op[1]) == 114 && lower_byte(
        op[2],
    ) == 105 && lower_byte(op[3]) == 116 && lower_byte(op[4]) == 101;
    proof {
        let mapped = op@.map(|_i: int, b: u8| spec_lower_byte(b));
        let write_kind = seq![119u8, 114u8, 105u8, 116u8, 101u8];
        assert(mapped.len() == op@.len());
        if r {
            assert(mapped =~= write_kind);
        } else if mapped == write_kind {
            assert(mapped.len() == 5);
            assert(mapped[0] == 119 && mapped[1] == 114 && mapped[2] == 105 && mapped[3] == 116
                && mapped[4] == 101);
        }
    }
    r
}

/// CPU basis points from the two deltas and the core count, clamped
/// into `u64`.
fn cpu_bp(cpu_delta: u64, system_delta: u64, cpus: u64) -> (r: u64)
    ensures
        r == sat64(spec_cpu_bp(cpu_delta as nat, system_delta as nat, cpus as nat) as int),
{
    if cpu_delta > 0 && system_delta > 0 {
        let scaled: u128 = (cpu_delta as u128) * 10000;
        match scaled.checked_mul(cpus as u128) {
            Some(p) => {
                let q = p / (system_delta as u128);
                proof {
                    assert(cpu_delta as nat * cpus as nat * 10000 == p) by (nonlinear_arith)
                        requires
                            p == (cpu_delta as u128) as nat * 10000 * (cpus as u128) as nat,
                    ;
                }
                if q > u64::MAX as u128 {
                    u64::MAX
                } else {
                    q as u64
                }
            },
            None => {
                proof {
                    assert(cpu_delta as nat * cpus as nat * 10000 > u128::MAX) by (nonlinear_arith)
                        requires
                            (cpu_delta as u128) as nat * 10000 * (cpus as u128) as nat
                                > u128::MAX,
                    ;
                    lemma_huge_quotient(
                        (cpu_delta as nat * cpus as nat * 10000) as int,
                        system_delta as int,
                    );
                }
                u64::MAX
            },
        }
    } else {
        0
    }
}

/// A numerator beyond the `u128` range divided by a `u64` denominator
/// exceeds the `u64` range.
proof fn lemma_huge_quotient(n: int, d: int)
    requires
        n > u128::MAX,
        0 < d <= u64::MAX,
    ensures
        n / d > u64::MAX,
{
    let bound = (u64::MAX + 1) * d;
    vstd::arithmetic::mul::lemma_mul_inequality(d, u64::MAX + 1, u64::MAX + 1);
    assert(bound <= (u64::MAX + 1) * (u64::MAX + 1));
    assert((u64::MAX + 1) * (u64::MAX + 1) == u128::MAX + 1) by (nonlinear_arith);
    vstd::arithmetic::div_mod::lemma_div_is_ordered(bound, n, d);
    vstd::arithmetic::div_mod::lemma_div_by_multiple(u64::MAX + 1, d);
    assert(bound / d == u64::MAX + 1);
}

/// Memory basis points from usage and limit, clamped into `u64`.
fn memory_bp(usage: u64, limit: u64) -> (r: u64)
    ensures
        r == sat64(spec_memory_bp(usage as nat, limit as nat) as int),
{
    if limit > 0 {
        let p: u128 = (usage as u128) * 10000;
        let q = p / (limit as u128);
        if q > u64::MAX as u128 {
            u64::MAX
        } else {
            q as u64
        }
    } else {
        0
    }
}

/// Sum the cumulative receive and transmit counters over all
/// interfaces, clamping each total into `u64`.
fn network_totals(nets: &Vec<NetInterfaceIo>) -> (r: (u64, u64))
    ensures
        r.0 == sat64(spec_rx_total(nets@) as int),
        r.1 == sat64(spec_tx_total(nets@) as int),
{
    let mut rx: u64 = 0;
    let mut tx: u64 = 0;
    let mut i: usize = 0;
    while i < nets.len()
        invariant
            i <= nets.len(),
            rx == sat64(spec_rx_total(nets@.take(i as int)) as int),
            tx == sat64(spec_tx_total(nets@.take(i as int)) as int),
        decreases nets.len() - i,
    {
        proof {
            assert(nets@.take(i + 1).drop_last() =~= nets@.take(i as int));
        }
        rx = rx.saturating_add(nets[i].rx_bytes);
        tx = tx.saturating_add(nets[i].tx_bytes);
        i = i + 1;
    }
    proof {
        assert(nets@.take(nets@.len() as int) =~= nets@);
    }
    (rx, tx)
}

/// Partition the block-operation records by kind (`read` or `write`,
/// ignoring case; anything else is ignored) and sum the bytes of each
/// partition, clamping each total into `u64`.
fn block_totals(ops: &Vec<BlockOpIo>) -> (r: (u64, u64))
    ensures
        r.0 == sat64(spec_block_read_total(ops@) as int),
        r.1 == sat64(spec_block_write_total(ops@) as int),
{
    let mut read: u64 = 0;
    let mut write: u64 = 0;
    let mut i: usize = 0;
    while i < ops.len()
        invariant
            i <= ops.len(),
            read == sat64(spec_block_read_total(ops@.take(i as int)) as int),
            write == sat64(spec_block_write_total(ops@.take(i as int)) as int),
        decreases ops.len() - i,
    {
        proof {
            assert(ops@.take(i + 1).drop_last() =~= ops@.take(i as int));
        }
        if is_read_kind(&ops[i].op_kind) {
            read = read.saturating_add(ops[i].bytes);
        } else if is_write_kind(&ops[i].op_kind) {
            write = write.saturating_add(ops[i].bytes);
        }
        i = i + 1;
    }
    proof {
        assert(ops@.take(ops@.len() as int) =~= ops@);
    }
    (read, write)
}

/// Derive a container's statistics from a previous and a current raw
/// counter snapshot.  CPU load is 0 whenever either counter failed to
/// advance; memory percentage is 0 when no limit is reported.
pub fn compute_container_stats(
    id: String,
    name: String,
    prev: &RawCounterSnapshot,
    curr: &RawCounterSnapshot,
) -> (r: ContainerStats)
    ensures
        stats_correct(r, id@, name@, *prev, *curr),
        curr.cpu_total <= prev.cpu_total || spec_system_total(*curr) <= spec_system_total(*prev)
            ==> r.cpu_percentage_bp == 0,
        spec_memory_limit(*curr) == 0 ==> r.memory_percentage_bp == 0,
{
    let cpu_delta = curr.cpu_total.saturating_sub(prev.cpu_total);
    let sys_prev = match prev.system_total {
        Some(v) => v,
        None => 0,
    };
    let sys_curr = match curr.system_total {
        Some(v) => v,
        None => 0,
    };
    let system_delta = sys_curr.saturating_sub(sys_prev);
    let cpus = match curr.online_cpus {
        Some(v) => v,
        None => 1,
    };
    let cpu_percentage_bp = cpu_bp(cpu_delta, system_delta, cpus);

    let memory_usage = match curr.memory_usage {
        Some(v) => v,
        None => 0,
    };
    let memory_limit = match curr.memory_limit {
        Some(v) => v,
        None => 0,
    };
    let memory_percentage_bp = memory_bp(memory_usage, memory_limit);

    let (network_rx, network_tx) = match &curr.networks {
        Some(nets) => network_totals(nets),
        None => (0, 0),
    };
    let (block_read, block_write) = match &curr.block_ops {
        Some(ops) => block_totals(ops),
        None => (0, 0),
    };

    ContainerStats {
        id,
        name,
        cpu_percentage_bp,
        memory_usage,
        memory_limit,
        memory_percentage_bp,
        network_rx,
        network_tx,
        block_read,
        block_write,
    }
}

} // verus!
