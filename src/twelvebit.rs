use vstd::prelude::*;

verus! {

/// Number of complete 12-bit groups in `n` bytes: `floor(8 * n / 12)`.
pub open spec fn twelve_count(n: nat) -> nat {
    (2 * n / 3) as nat
}

/// The `k`-th 12-bit group of `b`, reading the bits most significant first.
/// Two groups share three bytes: `AAAAAAAA AAAABBBB BBBBBBBB`.
pub open spec fn twelve_at(b: Seq<u8>, k: int) -> int {
    let i = 3 * (k / 2);
    if k % 2 == 0 {
        b[i] as int * 16 + b[i + 1] as int / 16
    } else {
        (b[i + 1] as int % 16) * 256 + b[i + 2] as int
    }
}

/// All complete 12-bit groups of `b`, in order; a trailing partial group is dropped.
pub open spec fn twelve_values(b: Seq<u8>) -> Seq<u16> {
    Seq::new(twelve_count(b.len()), |k: int| twelve_at(b, k) as u16)
}

/// Pull-based unpacker of 12-bit integers packed without padding into bytes.
///
/// Between calls it holds 0, 4 or 8 pending bits of the byte read last.
pub struct TwelveBits {
    bytes: Vec<u8>,
    pos: usize,
    part: u16,
    bits: u8,
}

impl TwelveBits {
    /// The bytes being unpacked.
    pub closed spec fn source(&self) -> Seq<u8> {
        self.bytes@
    }

    /// How many integers have been produced so far.
    pub closed spec fn produced(&self) -> nat {
        ((8 * self.pos - self.bits) / 12) as nat
    }

    pub closed spec fn wf(&self) -> bool {
        &&& self.pos <= self.bytes@.len()
        &&& {
            ||| (self.bits == 0 && self.part == 0 && self.pos % 3 == 0)
            ||| (self.bits == 8 && self.pos % 3 == 1 && self.part == self.bytes@[self.pos - 1] as u16)
            ||| (self.bits == 4 && self.pos % 3 == 2 && self.part == (self.bytes@[self.pos - 1] % 16) as u16)
        }
    }

    pub fn new(bytes: Vec<u8>) -> (r: Self)
        ensures
            r.wf(),
            r.source() == bytes@,
            r.produced() == 0,
    {
        TwelveBits { bytes, pos: 0, part: 0, bits: 0 }
    }

    /// The next 12-bit integer, or `None` once no complete group is left.
    pub fn next(&mut self) -> (r: Option<u16>)
        requires
            old(self).wf(),
        ensures
            final(self).wf(),
            final(self).source() == old(self).source(),
            old(self).produced() < twelve_count(old(self).source().len()) ==> {
                &&& r == Some(twelve_values(old(self).source())[old(self).produced() as int])
                &&& final(self).produced() == old(self).produced() + 1
            },
            old(self).produced() >= twelve_count(old(self).source().len()) ==> {
                &&& r is None
                &&& final(self).produced() == old(self).produced()
            },
    {
        let ghost src = self.bytes@;
        let ghost k = self.produced();
        loop
            invariant
                self.wf(),
                self.bytes@ == src,
                self.produced() == k,
                src == old(self).source(),
                k == old(self).produced(),
                self.bits == 8 ==> k < twelve_count(src.len()) || self.pos == src.len(),
            decreases src.len() - self.pos,
        {
            if self.pos >= self.bytes.len() {
                return None;
            }
            let byte = self.bytes[self.pos];
            let prev = self.part;
            self.pos = self.pos + 1;
            if self.bits == 8 {
                let part: u16 = (prev << 8u16) | (byte as u16);
                let result: u16 = (part & 0xFFF0u16) >> 4u16;
                let low: u16 = part & 0x000Fu16;
                assert(result == prev * 16 + byte / 16 && low == byte % 16) by (bit_vector)
                    requires
                        prev < 256,
                        part == (prev << 8u16) | (byte as u16),
                        result == (part & 0xFFF0u16) >> 4u16,
                        low == part & 0x000Fu16;
                self.part = low;
                self.bits = 4;
                return Some(result);
            } else if self.bits == 4 {
                let result: u16 = (prev << 8u16) | (byte as u16);
                self.part = 0;
                self.bits = 0;
                assert(result == prev * 256 + byte) by (bit_vector)
                    requires
                        prev < 16,
                        result == (prev << 8u16) | (byte as u16);
                return Some(result);
            } else {
                self.part = byte as u16;
                self.bits = 8;
            }
        }
    }
}

} // verus!
