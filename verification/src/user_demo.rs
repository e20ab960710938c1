//! Small user programs whose output the kernel's tests look at.

use vstd::prelude::*;
use crate::console::{Console, signed_dec};

verus! {

/// The text that `recursive(n)` prints.
pub open spec fn recursive_text(n: int) -> Seq<char>
    decreases if n > 0 { n } else { 0 },
{
    if n <= 0 {
        "Base case reached\n"@
    } else {
        "recursive("@ + signed_dec(n) + ")\n"@ + recursive_text(n - 1)
    }
}

/// Recurses down from `n`, printing each level and the base case, and
/// answers the number of levels (`n`, or 0 when `n` is not positive).
pub fn recursive(n: i32, console: &mut Console) -> (r: i32)
    ensures
        r == if n > 0 { n } else { 0 },
        final(console)@ == old(console)@ + recursive_text(n as int),
    decreases if n > 0 { n as int } else { 0 },
{
    if n <= 0 {
        console.write_str("Base case reached\n");
        return 0;
    }
    let ghost start = console@;
    console.write_str("recursive(");
    console.put_signed(n);
    console.write_str(")\n");
    let r = recursive(n - 1, console) + 1;
    proof {
        assert(console@ =~= start + recursive_text(n as int));
    }
    r
}

} // verus!
