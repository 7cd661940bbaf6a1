//! What remains of the execution-context primitive in a verified
//! setting. Saving one execution's registers and restoring another's is
//! a handful of architecture-specific instructions with no decidable
//! content, and it cannot stand in a verified library; what the
//! trampoline setup computes around it — where on a fresh stack the
//! initial call frame may start — is arithmetic, and stands here.

use vstd::prelude::*;

verus! {

/// Round a stack pointer down to the given alignment: the greatest
/// aligned address not above `sp`. For the power-of-two alignments that
/// calling conventions use, this is the usual mask of the low bits.
pub fn align_down(sp: usize, align: usize) -> (r: usize)
    requires
        align > 0,
    ensures
        r == sp - (sp % align),
        r % align == 0,
        r <= sp,
        sp - r < align,
{
    let m: usize = sp % align;
    proof {
        assert((sp as int) % (align as int) <= sp as int) by (nonlinear_arith)
            requires
                align > 0,
        ;
    }
    let r: usize = sp - m;
    proof {
        assert((sp as int - (sp as int) % (align as int)) % (align as int) == 0) by (nonlinear_arith)
            requires
                align > 0,
        ;
    }
    r
}

} // verus!
