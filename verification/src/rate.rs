use vstd::prelude::*;

verus! {

/// One whole, in the unit that a `Rate` counts in.
pub const RATE_SCALE: u32 = 1_000_000;

/// A probability or a share, held in millionths so that every product with a
/// length is exact integer arithmetic.
#[derive(Clone, Copy, Debug)]
pub struct Rate {
    pub millionths: u32,
}

impl Rate {
    /// A rate is a share of one whole: at most `RATE_SCALE` millionths.
    pub open spec fn wf(self) -> bool {
        self.millionths <= RATE_SCALE
    }

    /// `floor(n * rate)` as a mathematical integer.
    pub open spec fn share_of(self, n: nat) -> nat {
        (n * self.millionths as nat) / (RATE_SCALE as nat)
    }

    /// The rate of `millionths` parts in a million, if that is at most one whole.
    pub fn from_millionths(millionths: u32) -> (rate: Option<Rate>)
        ensures
            rate.is_some() <==> millionths <= RATE_SCALE,
            rate.is_some() ==> rate.unwrap().millionths == millionths && rate.unwrap().wf(),
    {
        if millionths <= RATE_SCALE {
            Some(Rate { millionths })
        } else {
            None
        }
    }

    /// `floor(n * rate)`: how many of `n` positions the rate selects.
    pub fn count_of(self, n: usize) -> (count: usize)
        requires
            self.wf(),
        ensures
            count == self.share_of(n as nat),
            count <= n,
    {
        assert((n as u128) * (self.millionths as u128) <= 0xffff_ffff_ffff_ffff * 0xffff_ffff)
            by (nonlinear_arith)
            requires
                n <= 0xffff_ffff_ffff_ffff,
                self.millionths <= 0xffff_ffff,
        ;
        let wide: u128 = (n as u128) * (self.millionths as u128);
        let scaled: u128 = wide / (RATE_SCALE as u128);
        proof {
            lemma_share_bounded(self, n as nat);
        }
        scaled as usize
    }
}

/// A share of `n` never exceeds `n`.
pub proof fn lemma_share_bounded(rate: Rate, n: nat)
    requires
        rate.wf(),
    ensures
        rate.share_of(n) <= n,
{
    let m = rate.millionths as nat;
    let s = RATE_SCALE as nat;
    assert(n * m <= n * s) by (nonlinear_arith)
        requires
            m <= s,
    ;
    assert((n * m) / s <= n) by (nonlinear_arith)
        requires
            n * m <= n * s,
            s > 0,
    ;
}

} // verus!
