//! Choices made for each attempt at the mine transaction: the reward bus,
//! the compute budget, and whether to include a reset.
use vstd::prelude::*;
use rand::Rng;
use crate::fee::PriorityFee;

verus! {

/// Compute units asked for a mine transaction.
pub const MINE_CU_LIMIT: u32 = 485_000;

/// Compute units asked for a mine transaction that also resets the epoch.
pub const MINE_WITH_RESET_CU_LIMIT: u32 = 500_000;

/// Seconds between two resets of the on-chain epoch.
pub const RESET_INTERVAL: i64 = 300;

/// A reset is included when the next one is due within this many seconds.
pub const RESET_LEAD: i64 = 5;

/// Relies on rand's thread-local generator and `coal_api::consts::BUS_COUNT`
/// (8): a uniformly drawn bus index below 8.
#[verifier::external_body]
fn random_bus() -> (r: usize)
    ensures
        r < 8,
{
    rand::thread_rng().gen_range(0..coal_api::consts::BUS_COUNT)
}

/// Whether bus `k` holds the most rewards of all fetched busses, and more
/// than every fetched bus before it.
pub open spec fn is_richest(busses: Seq<Option<u64>>, k: int) -> bool {
    &&& 0 <= k < busses.len()
    &&& busses[k] is Some
    &&& forall|j: int|
        0 <= j < busses.len() && (#[trigger] busses[j]) is Some ==> busses[j]->0 <= busses[k]->0
    &&& forall|j: int| 0 <= j < k && (#[trigger] busses[j]) is Some ==> busses[j]->0 < busses[k]->0
}

/// The first bus with the most rewards among those whose state was fetched
/// (`None` for a bus that could not be read); `None` if none was.
pub fn richest_bus(busses: &Vec<Option<u64>>) -> (r: Option<usize>)
    ensures
        r matches Some(k) ==> is_richest(busses@, k as int),
        r is None <==> forall|j: int| 0 <= j < busses@.len() ==> (#[trigger] busses@[j]) is None,
{
    let mut best: Option<usize> = None;
    let mut i: usize = 0;
    while i < busses.len()
        invariant
            i <= busses@.len(),
            best matches Some(k) ==> is_richest(busses@.take(i as int), k as int),
            best is None <==> forall|j: int| 0 <= j < i ==> (#[trigger] busses@[j]) is None,
        decreases busses@.len() - i,
    {
        let ghost pre = busses@.take(i as int);
        let ghost next = busses@.take(i + 1);
        assert(next =~= pre.push(busses@[i as int]));
        match busses[i] {
            Some(v) => {
                match best {
                    Some(k) => {
                        let cur = busses[k].unwrap();
                        if v > cur {
                            best = Some(i);
                        }
                    },
                    None => {
                        best = Some(i);
                    },
                }
            },
            None => {},
        }
        i = i + 1;
    }
    assert(busses@.take(i as int) =~= busses@);
    best
}

/// The bus to mine against: the richest fetched bus, or a random one of the
/// eight when no bus state could be fetched.
pub fn select_bus(busses: &Vec<Option<u64>>) -> (r: usize)
    ensures
        richest_bus_spec(busses@) matches Some(k) ==> r == k,
        richest_bus_spec(busses@) is None ==> r < 8,
{
    match richest_bus(busses) {
        Some(k) => {
            proof {
                lemma_richest_unique(busses@, k as int);
            }
            k
        },
        None => random_bus(),
    }
}

/// The index `richest_bus` returns, if any.
pub open spec fn richest_bus_spec(busses: Seq<Option<u64>>) -> Option<int> {
    if exists|k: int| is_richest(busses, k) {
        Some(choose|k: int| is_richest(busses, k))
    } else {
        None
    }
}

/// At most one bus is the first richest.
proof fn lemma_richest_unique(busses: Seq<Option<u64>>, k: int)
    requires
        is_richest(busses, k),
    ensures
        richest_bus_spec(busses) == Some(k),
{
    let c = choose|c: int| is_richest(busses, c);
    if c < k {
        assert(busses[c]->0 < busses[k]->0);
        assert(busses[c]->0 >= busses[k]->0);
    } else if k < c {
        assert(busses[k]->0 < busses[c]->0);
        assert(busses[k]->0 >= busses[c]->0);
    }
}

/// Whether the on-chain epoch, last reset at `last_reset_at`, is due for a
/// reset by `now`: `last_reset_at + 300 - now <= 5`.
pub fn reset_due(last_reset_at: i64, now: i64) -> (r: bool)
    ensures
        r == (last_reset_at + RESET_INTERVAL - now <= RESET_LEAD),
{
    (last_reset_at as i128) + (RESET_INTERVAL as i128) - (now as i128) <= (RESET_LEAD as i128)
}

/// How a single attempt at the mine transaction is to be built.
#[derive(Clone, Copy, Debug, PartialEq, Eq, Structural)]
pub struct MinePlan {
    pub bus: usize,
    pub cu_limit: u32,
    pub priority_fee: u64,
    pub include_reset: bool,
}

/// Plans one attempt: the bus from `select_bus`, the fee as it stands, and a
/// reset (with the larger compute budget) exactly when the fetched config
/// says one is due.
pub fn plan_attempt(
    busses: &Vec<Option<u64>>,
    last_reset_at: Option<i64>,
    now: i64,
    fee: &PriorityFee,
) -> (r: MinePlan)
    ensures
        richest_bus_spec(busses@) matches Some(k) ==> r.bus == k,
        richest_bus_spec(busses@) is None ==> r.bus < 8,
        r.priority_fee == fee.fee,
        r.include_reset == (last_reset_at matches Some(t) && t + RESET_INTERVAL - now
            <= RESET_LEAD),
        r.cu_limit == if r.include_reset {
            MINE_WITH_RESET_CU_LIMIT
        } else {
            MINE_CU_LIMIT
        },
{
    let bus = select_bus(busses);
    let include_reset = match last_reset_at {
        Some(t) => reset_due(t, now),
        None => false,
    };
    let cu_limit = if include_reset {
        MINE_WITH_RESET_CU_LIMIT
    } else {
        MINE_CU_LIMIT
    };
    MinePlan { bus, cu_limit, priority_fee: fee.current(), include_reset }
}

} // verus!
