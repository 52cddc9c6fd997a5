use vstd::prelude::*;

use crate::error::DecodeError;
use crate::twelvebit::{twelve_count, twelve_values, TwelveBits};

verus! {

/// The integers packed into `b` at width `w` (8 or 12), most significant bits first.
pub open spec fn unpacked(b: Seq<u8>, w: i64) -> Seq<u16> {
    if w == 8 {
        b.map_values(|x: u8| x as u16)
    } else {
        twelve_values(b)
    }
}

/// `v`, an unsigned integer of width `w`, read as a two's complement signed one.
pub open spec fn signed(v: int, w: int) -> int {
    let modulus = if w == 8 { 256int } else { 4096int };
    if v >= modulus / 2 { v - modulus } else { v }
}

/// Unpacks the integers of width `bitwidth` from `bytes`; only widths 8 and 12 are known.
pub fn unpack(bytes: Vec<u8>, bitwidth: i64) -> (r: Result<Vec<u16>, DecodeError>)
    ensures
        bitwidth == 8 || bitwidth == 12 ==> (r matches Ok(v) && v@ == unpacked(bytes@, bitwidth)),
        !(bitwidth == 8 || bitwidth == 12) ==> r == Err::<Vec<u16>, DecodeError>(
            DecodeError::UnsupportedBitwidth(bitwidth),
        ),
        bitwidth == 8 ==> (r matches Ok(v) && v@.len() == bytes@.len()),
        bitwidth == 12 ==> (r matches Ok(v) && v@.len() == 8 * bytes@.len() / 12),
        bitwidth == 12 ==> (r matches Ok(v) && forall|i: int| 0 <= i < v@.len() ==> v@[i] < 4096),
{
    let ghost src = bytes@;
    if bitwidth == 8 {
        let mut out: Vec<u16> = Vec::new();
        let mut i: usize = 0;
        while i < bytes.len()
            invariant
                i <= bytes@.len(),
                bytes@ == src,
                out@ == src.take(i as int).map_values(|x: u8| x as u16),
            decreases bytes@.len() - i,
        {
            out.push(bytes[i] as u16);
            i = i + 1;
            assert(src.take(i as int) == src.take(i - 1).push(src[i - 1]));
        }
        assert(src.take(i as int) == src);
        assert(out@ == unpacked(src, bitwidth));
        Ok(out)
    } else if bitwidth == 12 {
        let ghost n = twelve_count(src.len());
        let mut out: Vec<u16> = Vec::new();
        let mut it = TwelveBits::new(bytes);
        loop
            invariant
                it.wf(),
                it.source() == src,
                it.produced() <= n,
                n == twelve_count(src.len()),
                out@ == twelve_values(src).take(it.produced() as int),
            ensures
                out@ == twelve_values(src),
            decreases n - it.produced(),
        {
            let ghost before = it.produced();
            let step = it.next();
            match step {
                Some(v) => {
                    assert(before < n);
                    out.push(v);
                    assert(twelve_values(src).take(it.produced() as int) == twelve_values(src).take(
                        it.produced() - 1,
                    ).push(v));
                },
                None => {
                    assert(twelve_values(src).take(n as int) == twelve_values(src));
                    break;
                },
            }
        }
        assert(8 * src.len() / 12 == 2 * src.len() / 3) by (nonlinear_arith);
        proof {
            lemma_twelve_values_bounded(src);
        }
        Ok(out)
    } else {
        Err(DecodeError::UnsupportedBitwidth(bitwidth))
    }
}

/// Every integer unpacked at width 12 lies in `0..4096`.
pub proof fn lemma_twelve_values_bounded(b: Seq<u8>)
    ensures
        forall|i: int| 0 <= i < twelve_values(b).len() ==> twelve_values(b)[i] < 4096,
{
    assert forall|i: int| 0 <= i < twelve_values(b).len() implies twelve_values(b)[i] < 4096 by {
        let j = 3 * (i / 2);
        assert(j + 2 < b.len() || (i % 2 == 0 && j + 1 < b.len()));
        if i % 2 == 0 {
            assert(b[j] as int * 16 + (b[j + 1] as int) / 16 < 4096);
        } else {
            assert((b[j + 1] as int % 16) * 256 + (b[j + 2] as int) < 4096);
        }
    }
}

/// `v`, unpacked at width `bitwidth` (8 or 12), read as a signed integer.
pub fn sign_extend(v: u16, bitwidth: i64) -> (r: i32)
    requires
        bitwidth == 8 ==> v < 256,
        bitwidth == 12 ==> v < 4096,
        bitwidth == 8 || bitwidth == 12,
    ensures
        r == signed(v as int, bitwidth as int),
{
    if bitwidth == 8 {
        if v >= 128 { v as i32 - 256 } else { v as i32 }
    } else {
        if v >= 2048 { v as i32 - 4096 } else { v as i32 }
    }
}

} // verus!
