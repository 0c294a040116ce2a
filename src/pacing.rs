use vstd::prelude::*;

verus! {

/// Nanoseconds in one second.
pub const NANOS_PER_SEC: u64 = 1_000_000_000;

/// Most ticks run between two looks at the inbox and the clients.
pub const MAX_TICK_BATCH: u64 = 50_000;

/// A plot with no players and not pinned unloads after this many seconds.
pub const IDLE_UNLOAD_SECS: u64 = 600;

/// How fast a plot simulates.
#[derive(Clone, Copy, Debug, PartialEq, Eq, Structural)]
pub enum Tps {
    /// At most this many ticks per second; zero pauses the plot.
    Limited(u32),
    /// As many ticks as fit between two sends of the world.
    Unlimited,
    /// No ticks at all.
    Paused,
}

/// How many ticks fit in the time between two world sends, given how long the
/// last tick took; at least one.
pub open spec fn max_batch_spec(world_send_rate: u32, last_nspt: Option<u64>) -> int {
    match last_nspt {
        None => 1,
        Some(n) => if n == 0 {
            1
        } else {
            let fit = (NANOS_PER_SEC as int / world_send_rate as int) / n as int;
            if fit >= 1 { fit } else { 1 }
        },
    }
}

/// The largest batch that does not hold back the next world send.
pub fn max_batch_size(world_send_rate: u32, last_nspt: Option<u64>) -> (r: u64)
    requires
        world_send_rate > 0,
    ensures
        r as int == max_batch_spec(world_send_rate, last_nspt),
{
    match last_nspt {
        None => 1,
        Some(n) => {
            if n == 0 {
                1
            } else {
                let send_period = NANOS_PER_SEC / world_send_rate as u64;
                let fit = send_period / n;
                if fit >= 1 { fit } else { 1 }
            }
        }
    }
}

/// Nanoseconds per tick at a limited rate; a rate above one tick per
/// nanosecond counts as one tick per nanosecond.
pub open spec fn tick_period_spec(t: u32) -> int {
    if t as int <= NANOS_PER_SEC as int {
        NANOS_PER_SEC as int / t as int
    } else {
        1
    }
}

/// The batch that the pacing rule gives, and the lag that remains: for a limited
/// rate the lag grows by `dt` and pays for whole ticks; the batch is capped by
/// `max_batch`.
pub open spec fn batch_spec(tps: Tps, lag: u64, dt: u64, max_batch: u64) -> (int, int) {
    match tps {
        Tps::Limited(t) => if t == 0 {
            (0, lag as int)
        } else {
            let per_tick = tick_period_spec(t);
            let total = lag as int + dt as int;
            let n = total / per_tick;
            let rest = total - per_tick * n;
            (if n <= max_batch { n } else { max_batch as int }, rest)
        },
        Tps::Unlimited => (max_batch as int, lag as int),
        Tps::Paused => (0, lag as int),
    }
}

/// Number of ticks to run now, and the lag to carry to the next round.
pub fn batch_size(tps: Tps, lag: u64, dt: u64, max_batch: u64) -> (r: (u64, u64))
    ensures
        (r.0 as int, r.1 as int) == batch_spec(tps, lag, dt, max_batch),
{
    match tps {
        Tps::Limited(t) => {
            if t == 0 {
                (0, lag)
            } else {
                let per_tick = if t as u64 <= NANOS_PER_SEC { NANOS_PER_SEC / t as u64 } else { 1 };
                assert(per_tick >= 1) by (nonlinear_arith)
                    requires
                        t > 0,
                        t as u64 <= NANOS_PER_SEC ==> per_tick == NANOS_PER_SEC / t as u64,
                        t as u64 > NANOS_PER_SEC ==> per_tick == 1;
                let total: u128 = lag as u128 + dt as u128;
                let n = total / per_tick as u128;
                let rest = total % per_tick as u128;
                proof {
                    vstd::arithmetic::div_mod::lemma_fundamental_div_mod(total as int, per_tick as int);
                }
                let batch = if n <= max_batch as u128 { n as u64 } else { max_batch };
                (batch, rest as u64)
            }
        }
        Tps::Unlimited => (max_batch, lag),
        Tps::Paused => (0, lag),
    }
}

/// Whether a plot has been idle long enough to unload.
pub open spec fn should_unload_spec(has_players: bool, always_running: bool, idle_ns: u64) -> bool {
    !has_players && !always_running && idle_ns as int > IDLE_UNLOAD_SECS as int * NANOS_PER_SEC as int
}

} // verus!
