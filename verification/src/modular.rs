//! Sums modulo 2^64.

use vstd::prelude::*;

verus! {

/// Adding modulo 2^64 to a sum that was reduced modulo 2^64 is adding to the
/// sum itself.
pub proof fn lemma_wrapping_step(sum: nat, acc: u64, val: u64)
    requires
        acc == sum % 0x1_0000_0000_0000_0000,
    ensures
        vstd::wrapping::u64_specs::wrapping_add(acc, val) == (sum + val)
            % 0x1_0000_0000_0000_0000,
{
    let m = 0x1_0000_0000_0000_0000int;
    let q = sum as int / m;
    assert(sum == q * m + acc) by (nonlinear_arith)
        requires
            q == sum as int / m,
            acc == sum as int % m,
            m == 0x1_0000_0000_0000_0000int,
    ;
    if acc + val < m {
        assert((sum + val) % m == acc + val) by (nonlinear_arith)
            requires
                sum + val == q * m + (acc + val),
                0 <= acc + val < m,
                m == 0x1_0000_0000_0000_0000int,
        ;
    } else {
        assert((sum + val) % m == acc + val - m) by (nonlinear_arith)
            requires
                sum + val == (q + 1) * m + (acc + val - m),
                0 <= acc + val - m < m,
                m == 0x1_0000_0000_0000_0000int,
        ;
    }
}

} // verus!
