use vstd::prelude::*;

verus! {

/// The value of the first eight bytes of `s`, least significant byte first.
pub open spec fn le_u64(s: Seq<u8>) -> int {
    s[0] + 256 * (s[1] + 256 * (s[2] + 256 * (s[3] + 256 * (s[4] + 256 * (s[5] + 256 * (s[6]
        + 256 * s[7]))))))
}

/// Reads an account identifier stored as eight little-endian bytes. Bytes
/// past the eighth are ignored; fewer than eight cannot be read.
pub fn decode_account(bytes: &[u8]) -> (r: Option<u64>)
    ensures
        bytes@.len() < 8 ==> r.is_none(),
        bytes@.len() >= 8 ==> r == Some(le_u64(bytes@) as u64) && le_u64(bytes@) <= u64::MAX,
{
    if bytes.len() < 8 {
        return None;
    }
    let b0 = bytes[0] as u64;
    let b1 = bytes[1] as u64;
    let b2 = bytes[2] as u64;
    let b3 = bytes[3] as u64;
    let b4 = bytes[4] as u64;
    let b5 = bytes[5] as u64;
    let b6 = bytes[6] as u64;
    let b7 = bytes[7] as u64;
    let v: u64 = b0 + 256 * (b1 + 256 * (b2 + 256 * (b3 + 256 * (b4 + 256 * (b5 + 256 * (b6
        + 256 * b7))))));
    Some(v)
}

} // verus!
