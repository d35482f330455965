//! Small byte-level helpers shared by the dissectors.

use vstd::prelude::*;
use vstd::utf8::{decode_utf8, valid_utf8};

verus! {

/// Relies on `String::from_utf8`: it accepts exactly the valid UTF-8 byte
/// sequences and decodes them.
#[verifier::external_body]
pub fn arwah_utf8_text(b: &Vec<u8>) -> (r: Option<String>)
    ensures
        r is Some <==> valid_utf8(b@),
        r matches Some(s) ==> s@ == decode_utf8(b@),
{
    match core::str::from_utf8(b.as_slice()) {
        Ok(s) => Some(s.to_string()),
        Err(_) => None,
    }
}

/// Whether the bytes hold a zero.
pub open spec fn spec_has_zero(b: Seq<u8>) -> bool {
    exists|k: int| 0 <= k < b.len() && b[k] == 0
}

/// Scans for a zero byte.
pub fn arwah_contains_zero(b: &Vec<u8>) -> (r: bool)
    ensures
        r == spec_has_zero(b@),
{
    let mut i: usize = 0;
    while i < b.len()
        invariant
            i <= b@.len(),
            forall|k: int| 0 <= k < i ==> b@[k] != 0,
        decreases b@.len() - i,
    {
        if b[i] == 0 {
            proof {
                assert(spec_has_zero(b@)) by {
                    assert(b@[i as int] == 0);
                }
            }
            return true;
        }
        i += 1;
    }
    false
}

/// Copies a suffix of the bytes.
pub fn arwah_tail(b: &Vec<u8>, from: usize) -> (r: Vec<u8>)
    requires
        from <= b@.len(),
    ensures
        r@ == b@.skip(from as int),
{
    let mut out: Vec<u8> = Vec::new();
    let mut i: usize = from;
    while i < b.len()
        invariant
            from <= i <= b@.len(),
            out@ =~= b@.subrange(from as int, i as int),
        decreases b@.len() - i,
    {
        out.push(b[i]);
        i += 1;
    }
    proof {
        assert(out@ =~= b@.skip(from as int));
    }
    out
}

} // verus!
