//! The one-leg divergence evaluator: compares the freshest tick of a fast
//! and a slow venue and emits a directional trade signal when their price
//! ratio leaves a symmetric band around one, widened by the configured gap
//! and fee buffer.
use vstd::prelude::*;

use crate::balance::Balance;
use crate::decimal::PRICE_SCALE;
use crate::tick::Tick;

verus! {

/// Which side of the divergence fired: the fast venue is bought when its
/// price runs ahead, sold when it runs behind.
#[derive(Clone, Copy, PartialEq, Eq, Structural, Debug)]
pub enum Direction {
    Buy,
    Sell,
}

/// An emitted trade decision: a direction and a size in scaled units.
#[derive(Clone, Copy, PartialEq, Eq, Structural, Debug)]
pub struct Signal {
    pub direction: Direction,
    pub size: u64,
}

pub open spec fn abs_diff(a: int, b: int) -> int {
    if a >= b {
        a - b
    } else {
        b - a
    }
}

/// The staleness guard: both ticks' local receipt times lie within the
/// configured window.
pub open spec fn spec_fresh(fast: Tick, slow: Tick, max_time_diff_ms: int) -> bool {
    abs_diff(fast.timestamp2 as int, slow.timestamp2 as int) < max_time_diff_ms
}

/// The divergence condition: the price ratio `fast/slow` exceeds
/// `1 + gap + fee` or falls below `1 - gap - fee`, stated without division
/// over scaled integers.
pub open spec fn spec_diverges(fast_avg: int, slow_avg: int, gap: int, fee: int) -> bool {
    ||| fast_avg * (PRICE_SCALE as int) > slow_avg * (PRICE_SCALE as int + gap + fee)
    ||| fast_avg * (PRICE_SCALE as int) < slow_avg * (PRICE_SCALE as int - gap - fee)
}

/// Size of an emitted signal: the configured fraction of the balance,
/// rounded down to a scaled unit.
pub open spec fn spec_trade_size(norm_trade_size: int, amount: int) -> int {
    norm_trade_size * amount / (PRICE_SCALE as int)
}

/// Evaluates one divergence cycle over the freshest tick from each venue
/// and the freshest balance. Returns a signal exactly when the ticks are
/// fresh enough and the divergence condition holds; a stale pair never
/// produces a signal, whatever the prices.
pub fn oneleg(
    norm_trade_size: u64,
    norm_gap: u64,
    time_gap_ms: usize,
    max_time_diff_ms: usize,
    fee_slow_buff: u64,
    fast_buff_back: &Tick,
    slow_buff_back: &Tick,
    balance_buff_back: &Balance,
) -> (r: Option<Signal>)
    requires
        norm_trade_size <= PRICE_SCALE,
        norm_gap <= PRICE_SCALE,
        fee_slow_buff <= PRICE_SCALE,
        fast_buff_back.wf(),
        slow_buff_back.wf(),
    ensures
        (r is Some) <==> (spec_fresh(*fast_buff_back, *slow_buff_back, max_time_diff_ms as int)
            && spec_diverges(
            fast_buff_back.avg as int,
            slow_buff_back.avg as int,
            norm_gap as int,
            fee_slow_buff as int,
        )),
        abs_diff(fast_buff_back.timestamp2 as int, slow_buff_back.timestamp2 as int)
            >= max_time_diff_ms as int ==> r is None,
        match r {
            Some(sig) => {
                &&& sig.size as int == spec_trade_size(
                    norm_trade_size as int,
                    balance_buff_back.amount as int,
                )
                &&& sig.direction == (if fast_buff_back.avg > slow_buff_back.avg {
                    Direction::Buy
                } else {
                    Direction::Sell
                })
            },
            None => true,
        },
{
    let tf = fast_buff_back.timestamp2;
    let ts = slow_buff_back.timestamp2;
    let time_diff: u64 = if tf >= ts {
        tf - ts
    } else {
        ts - tf
    };
    if (time_diff as u128) < (max_time_diff_ms as u128) {
        let scale: u128 = PRICE_SCALE as u128;
        let lhs: u128 = fast_buff_back.avg as u128 * scale;
        let band: u128 = norm_gap as u128 + fee_slow_buff as u128;
        proof {
            assert(slow_buff_back.avg as int * (PRICE_SCALE as int + norm_gap as int
                + fee_slow_buff as int) <= u64::MAX as int * (3 * PRICE_SCALE as int))
                by (nonlinear_arith)
                requires
                    0 <= slow_buff_back.avg as int <= u64::MAX as int,
                    0 <= PRICE_SCALE as int + norm_gap as int + fee_slow_buff as int <= 3
                        * PRICE_SCALE as int,
            ;
            assert(slow_buff_back.avg as int * (PRICE_SCALE as int - (norm_gap as int
                + fee_slow_buff as int)) <= u64::MAX as int * (3 * PRICE_SCALE as int))
                by (nonlinear_arith)
                requires
                    0 <= slow_buff_back.avg as int <= u64::MAX as int,
                    PRICE_SCALE as int - (norm_gap as int + fee_slow_buff as int) <= 3
                        * PRICE_SCALE as int,
            ;
        }
        let hi: u128 = slow_buff_back.avg as u128 * (scale + band);
        let below = if band < scale {
            lhs < slow_buff_back.avg as u128 * (scale - band)
        } else {
            proof {
                assert(slow_buff_back.avg as int * (PRICE_SCALE as int - norm_gap as int
                    - fee_slow_buff as int) <= 0) by (nonlinear_arith)
                    requires
                        slow_buff_back.avg as int > 0,
                        PRICE_SCALE as int - norm_gap as int - fee_slow_buff as int <= 0,
                ;
            }
            false
        };
        if lhs > hi || below {
            proof {
                assert(norm_trade_size as int * balance_buff_back.amount as int <= PRICE_SCALE
                    as int * u64::MAX as int) by (nonlinear_arith)
                    requires
                        0 <= norm_trade_size as int <= PRICE_SCALE as int,
                        0 <= balance_buff_back.amount as int <= u64::MAX as int,
                ;
            }
            let size_wide: u128 = norm_trade_size as u128 * balance_buff_back.amount as u128
                / scale;
            proof {
                assert(norm_trade_size as int * balance_buff_back.amount as int <= PRICE_SCALE
                    as int * balance_buff_back.amount as int) by (nonlinear_arith)
                    requires
                        norm_trade_size as int <= PRICE_SCALE as int,
                        balance_buff_back.amount as int >= 0,
                ;
                assert(norm_trade_size as int * balance_buff_back.amount as int / (PRICE_SCALE
                    as int) <= balance_buff_back.amount as int) by (nonlinear_arith)
                    requires
                        norm_trade_size as int * balance_buff_back.amount as int <= PRICE_SCALE
                            as int * balance_buff_back.amount as int,
                        norm_trade_size as int * balance_buff_back.amount as int >= 0,
                        balance_buff_back.amount as int >= 0,
                        PRICE_SCALE as int > 0,
                ;
            }
            let size = size_wide as u64;
            let direction = if fast_buff_back.avg > slow_buff_back.avg {
                Direction::Buy
            } else {
                Direction::Sell
            };
            Some(Signal { direction, size })
        } else {
            None
        }
    } else {
        None
    }
}

} // verus!
