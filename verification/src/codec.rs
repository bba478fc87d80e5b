//! An auxiliary symbol-table codec between small integers and characters
//! of a fixed 64-character alphabet. It sits alongside the simulator and
//! is not exercised by the tick loop.

use vstd::prelude::*;
use vstd::string::StrSliceExecFns;

verus! {

/// The fixed alphabet: digits, lower-case letters, upper-case letters,
/// then `?` and `!`.
pub open spec fn alphabet() -> Seq<char> {
    "0123456789abcdefghijklmnopqrstuvwxyzABCDEFGHIJKLMNOPQRSTUVWXYZ?!"@
}

/// The character that stands for `value` in the alphabet. Asking for a
/// value outside the alphabet is an error, so it is ruled out here.
pub fn encode_base64(value: u8) -> (r: char)
    requires
        value < 64,
    ensures
        r == alphabet()[value as int],
{
    let table: &str = "0123456789abcdefghijklmnopqrstuvwxyzABCDEFGHIJKLMNOPQRSTUVWXYZ?!";
    proof {
        reveal_strlit("0123456789abcdefghijklmnopqrstuvwxyzABCDEFGHIJKLMNOPQRSTUVWXYZ?!");
    }
    table.get_char(value as usize)
}

/// The value whose alphabet character is `ch`: the least matching index,
/// or 0 when `ch` is not in the alphabet. The zero default for unmapped
/// characters is deliberate, in contrast to `encode_base64`, which
/// refuses out-of-range values.
pub fn decode_base64(ch: char) -> (r: u8)
    ensures
        r < 64,
        (exists|i: int| 0 <= i < 64 && alphabet()[i] == ch) ==> {
            &&& alphabet()[r as int] == ch
            &&& forall|j: int| 0 <= j < r ==> alphabet()[j] != ch
        },
        !(exists|i: int| 0 <= i < 64 && alphabet()[i] == ch) ==> r == 0,
    {
    let table: &str = "0123456789abcdefghijklmnopqrstuvwxyzABCDEFGHIJKLMNOPQRSTUVWXYZ?!";
    proof {
        reveal_strlit("0123456789abcdefghijklmnopqrstuvwxyzABCDEFGHIJKLMNOPQRSTUVWXYZ?!");
    }
    let mut i: u8 = 0;
    while i < 64
        invariant
            i <= 64,
            table@ == alphabet(),
            forall|j: int| 0 <= j < i ==> alphabet()[j] != ch,
        decreases 64 - i,
    {
        proof {
            reveal_strlit("0123456789abcdefghijklmnopqrstuvwxyzABCDEFGHIJKLMNOPQRSTUVWXYZ?!");
        }
        if table.get_char(i as usize) == ch {
            return i;
        }
        i = i + 1;
    }
    0
}

} // verus!
