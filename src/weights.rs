use vstd::prelude::*;

verus! {

/// Cost of one storage read and of one storage write, as the host measures them.
#[derive(Clone, Copy, Debug)]
pub struct RuntimeDbWeight {
    pub read: u64,
    pub write: u64,
}

/// `x` capped at the largest weight.
pub open spec fn capped(x: int) -> u64 {
    if x > u64::MAX {
        u64::MAX
    } else {
        x as u64
    }
}

/// Base cost plus `reads` reads and `writes` writes, saturating at the largest weight.
pub open spec fn weight_of(base: u64, db: RuntimeDbWeight, reads: u64, writes: u64) -> u64 {
    capped(base + db.read * reads + db.write * writes)
}

fn saturating_times(x: u64, n: u64) -> (r: u64)
    ensures
        r == capped(x * n),
{
    match x.checked_mul(n) {
        Some(v) => v,
        None => u64::MAX,
    }
}

fn weight(base: u64, db: RuntimeDbWeight, reads: u64, writes: u64) -> (r: u64)
    ensures
        r == weight_of(base, db, reads, writes),
{
    let r = saturating_times(db.read, reads);
    let w = saturating_times(db.write, writes);
    proof {
        assert(db.read * reads >= 0 && db.write * writes >= 0) by (nonlinear_arith);
    }
    base.saturating_add(r).saturating_add(w)
}

/// Measured costs of the two operations.
pub struct WeightInfo;

impl WeightInfo {
    /// Cost of `create_kitty`: four reads and three writes on top of its base.
    pub fn create_kitty(db: RuntimeDbWeight) -> (r: u64)
        ensures
            r == weight_of(383_700_000, db, 4, 3),
    {
        weight(383_700_000, db, 4, 3)
    }

    /// Cost of `transfer`: three reads and three writes on top of its base.
    pub fn transfer(db: RuntimeDbWeight) -> (r: u64)
        ensures
            r == weight_of(129_700_000, db, 3, 3),
    {
        weight(129_700_000, db, 3, 3)
    }
}

} // verus!
