//! The header codec: the ASCII prefix `"<kind> <size>\0"` that precedes a
//! payload in the uncompressed object representation.

use vstd::prelude::*;

use crate::digits::{dec_rep, render_dec};
use crate::kind::{token_of, Kind};

verus! {

/// The header bytes for an object of kind `k` and declared size `n`:
/// the kind token, one ASCII space, the decimal size, one NUL.
pub open spec fn header_spec(k: Kind, n: u64) -> Seq<u8> {
    token_of(k) + seq![32u8] + dec_rep(n as nat) + seq![0u8]
}

/// Encode the header for an object of kind `k` and declared size `n`.
pub fn encode_header(k: Kind, n: u64) -> (r: Vec<u8>)
    ensures
        r@ == header_spec(k, n),
{
    let mut v = k.token();
    v.push(32);
    let mut d = render_dec(n);
    v.append(&mut d);
    v.push(0);
    proof {
        assert(v@ =~= header_spec(k, n));
    }
    v
}

} // verus!
