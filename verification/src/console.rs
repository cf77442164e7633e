//! Diagnostic console output.
//!
//! The platform's console is a byte sink that accepts one character at a
//! time.  Here the sink is the sequence of character codes handed to it, in
//! order; the surrounding runtime forwards that sequence to the real device.
//! Diagnostics are optional for the allocator: nothing here touches its
//! state.

use vstd::prelude::*;
use vstd::string::StrSliceExecFns;

verus! {

/// Hand one character code to the console sink.
pub fn console_putchar(out: &mut Vec<usize>, c: usize)
    ensures
        final(out)@ == old(out)@.push(c),
{
    out.push(c);
}

/// Print a string: hand its characters to the console sink one at a time,
/// in order.
pub fn print(out: &mut Vec<usize>, s: &str)
    ensures
        final(out)@ == old(out)@ + s@.map_values(|c: char| c as usize),
{
    let n = s.unicode_len();
    let mut i: usize = 0;
    while i < n
        invariant
            n == s@.len(),
            i <= n,
            out@ == old(out)@ + s@.subrange(0, i as int).map_values(|c: char| c as usize),
        decreases n - i,
    {
        let c = s.get_char(i);
        console_putchar(out, c as usize);
        proof {
            assert(out@ =~= old(out)@ + s@.subrange(0, i + 1).map_values(
                |c: char| c as usize,
            ));
        }
        i = i + 1;
    }
    proof {
        assert(out@ =~= old(out)@ + s@.map_values(|c: char| c as usize));
    }
}

} // verus!
