//! The sizes that the benchmarks run at.

use crate::internal::text::decimal;
use crate::internal::text::decimal_text;
use vstd::prelude::*;
use vstd::string::*;

verus! {

/// The messages that one run of a batch publishes.
pub const BATCH_MESSAGES: usize = 4096;

/// The capacity of the channels that messages take a round trip through.
pub const ROUND_TRIP_CAPACITY: usize = 64;

/// A bounded channel to run at: its capacity and the number of its receivers.
#[derive(Clone, Copy, Debug, PartialEq, Eq, Structural)]
pub struct BoundedShape {
    pub capacity: usize,
    pub receivers: usize,
}

/// A channel that peaked at `peak` receivers and currently has `live` of them.
///
/// The two are given separately because a receiver that left keeps its slot: the search for the
/// slowest receiver walks every slot the channel ever handed out.
#[derive(Clone, Copy, Debug, PartialEq, Eq, Structural)]
pub struct Fanout {
    pub peak: usize,
    pub live: usize,
}

impl BoundedShape {
    /// A shape of these sizes.
    pub fn new(capacity: usize, receivers: usize) -> (shape: Self)
        ensures
            shape.capacity == capacity,
            shape.receivers == receivers,
    {
        BoundedShape { capacity, receivers }
    }

    /// The name of the shape.
    pub fn to_string(&self) -> (text: String)
        ensures
            text@ == "cap "@ + decimal(self.capacity as nat) + " 1 producer "@ + decimal(
                self.receivers as nat,
            ) + " receivers"@,
    {
        let mut text = "cap ".to_owned();
        text.append(decimal_text(self.capacity as u64).as_str());
        text.append(" 1 producer ");
        text.append(decimal_text(self.receivers as u64).as_str());
        text.append(" receivers");
        text
    }
}

impl Fanout {
    /// The name of the fan-out.
    pub fn to_string(&self) -> (text: String)
        ensures
            text@ == "peak "@ + decimal(self.peak as nat) + " live "@ + decimal(self.live as nat),
    {
        let mut text = "peak ".to_owned();
        text.append(decimal_text(self.peak as u64).as_str());
        text.append(" live ");
        text.append(decimal_text(self.live as u64).as_str());
        text
    }
}

/// The shapes that bounded channels are compared at.
pub fn bounded_shapes() -> (shapes: Vec<BoundedShape>)
    ensures
        shapes@ == seq![
            BoundedShape { capacity: 1, receivers: 1 },
            BoundedShape { capacity: 1, receivers: 8 },
            BoundedShape { capacity: 1, receivers: 32 },
            BoundedShape { capacity: 64, receivers: 1 },
            BoundedShape { capacity: 64, receivers: 8 },
            BoundedShape { capacity: 64, receivers: 32 },
        ],
{
    let mut shapes: Vec<BoundedShape> = Vec::new();
    shapes.push(BoundedShape::new(1, 1));
    shapes.push(BoundedShape::new(1, 8));
    shapes.push(BoundedShape::new(1, 32));
    shapes.push(BoundedShape::new(64, 1));
    shapes.push(BoundedShape::new(64, 8));
    shapes.push(BoundedShape::new(64, 32));
    shapes
}

/// The fan-outs that the search for the slowest receiver is measured at.
pub fn reclaim_fanouts() -> (fanouts: Vec<Fanout>)
    ensures
        fanouts@ == seq![
            Fanout { peak: 1, live: 1 },
            Fanout { peak: 8, live: 8 },
            Fanout { peak: 8, live: 1 },
            Fanout { peak: 32, live: 32 },
            Fanout { peak: 32, live: 4 },
            Fanout { peak: 32, live: 1 },
            Fanout { peak: 256, live: 32 },
            Fanout { peak: 256, live: 1 },
        ],
{
    let mut fanouts: Vec<Fanout> = Vec::new();
    fanouts.push(Fanout { peak: 1, live: 1 });
    fanouts.push(Fanout { peak: 8, live: 8 });
    fanouts.push(Fanout { peak: 8, live: 1 });
    fanouts.push(Fanout { peak: 32, live: 32 });
    fanouts.push(Fanout { peak: 32, live: 4 });
    fanouts.push(Fanout { peak: 32, live: 1 });
    fanouts.push(Fanout { peak: 256, live: 32 });
    fanouts.push(Fanout { peak: 256, live: 1 });
    fanouts
}

/// The sum of the numbers below `n`.
pub open spec fn sum_below(n: nat) -> nat
    decreases n,
{
    if n == 0 {
        0
    } else {
        sum_below((n - 1) as nat) + (n - 1) as nat
    }
}

/// The sum of the numbers below `n` in one formula.
pub proof fn sum_below_in_closed_form(n: nat)
    ensures
        2 * sum_below(n) == n * (n - 1),
    decreases n,
{
    if n > 0 {
        let m = (n - 1) as nat;
        sum_below_in_closed_form(m);
        assert(n * (n - 1) == m * (m - 1) + 2 * m) by (nonlinear_arith)
            requires
                n == m + 1,
        ;
    } else {
        assert(n * (n - 1) == 0) by (nonlinear_arith)
            requires
                n == 0,
        ;
    }
}

/// What a receiver arrives at that adds up every message of a batch.
pub fn batch_checksum() -> (checksum: usize)
    ensures
        checksum == sum_below(BATCH_MESSAGES as nat),
{
    proof {
        sum_below_in_closed_form(BATCH_MESSAGES as nat);
    }
    BATCH_MESSAGES * (BATCH_MESSAGES - 1) / 2
}

} // verus!
