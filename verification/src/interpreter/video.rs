use vstd::prelude::*;

use super::Interpreter;
use crate::cpu::memory::{MemoryError, load_bytes, u32_from_le};

verus! {

/// The bytes of pixel `c` (`0x00RRGGBB`): red, green, blue, then an opaque
/// alpha.
pub open spec fn rgba(c: u32) -> Seq<u8> {
    seq![(c >> 16) as u8, (c >> 8) as u8, c as u8, 0xffu8]
}

/// The bytes of the pixels `ws`, one after another.
pub open spec fn rgba_frame(ws: Seq<u32>) -> Seq<u8>
    decreases ws.len(),
{
    if ws.len() == 0 {
        Seq::empty()
    } else {
        rgba_frame(ws.drop_last()) + rgba(ws.last())
    }
}

/// The address of pixel `i` of a frame at `addr` (four bytes each, wrapping
/// around the address space).
pub open spec fn pixel_addr(addr: u32, i: int) -> u32 {
    ((addr + 4 * i) % 0x1_0000_0000) as u32
}

/// The first `n` pixels of the frame at `addr` in memory `m`, or the error
/// of the first one that cannot be loaded.
pub open spec fn frame_words(m: Map<u32, u8>, addr: u32, n: nat) -> Result<Seq<u32>, MemoryError>
    decreases n,
{
    if n == 0 {
        Ok(Seq::empty())
    } else {
        match frame_words(m, addr, (n - 1) as nat) {
            Err(e) => Err(e),
            Ok(ws) => match load_bytes(m, pixel_addr(addr, n - 1), 4) {
                Err(e) => Err(e),
                Ok(bs) => Ok(ws.push(u32_from_le(bs))),
            },
        }
    }
}

proof fn lemma_frame_err_stays(m: Map<u32, u8>, addr: u32, n: nat, k: nat)
    requires
        n <= k,
        frame_words(m, addr, n) is Err,
    ensures
        frame_words(m, addr, k) == frame_words(m, addr, n),
    decreases k - n,
{
    if n < k {
        lemma_frame_err_stays(m, addr, n, (k - 1) as nat);
    }
}

proof fn lemma_next_pixel(addr: u32, i: int)
    requires
        0 <= i,
    ensures
        pixel_addr(addr, i + 1) == ((pixel_addr(addr, i) + 4) % 0x1_0000_0000) as u32,
{
    vstd::arithmetic::div_mod::lemma_add_mod_noop(addr + 4 * i, 4, 0x1_0000_0000);
    assert(addr + 4 * (i + 1) == addr + 4 * i + 4);
}

/// Appends the bytes of pixel `c` to `out`.
fn push_rgba(out: &mut Vec<u8>, c: u32)
    ensures
        final(out)@ == old(out)@ + rgba(c),
{
    out.push((c >> 16) as u8);
    out.push((c >> 8) as u8);
    out.push(c as u8);
    out.push(0xff);
    assert(final(out)@ =~= old(out)@ + rgba(c));
}

/// The bytes of the pixels `words` (see `rgba`).
pub fn rgba_of(words: &[u32]) -> (r: Vec<u8>)
    ensures
        r@ == rgba_frame(words@),
{
    let mut out: Vec<u8> = Vec::new();
    let mut i: usize = 0;
    while i < words.len()
        invariant
            i <= words@.len(),
            out@ == rgba_frame(words@.subrange(0, i as int)),
        decreases words@.len() - i,
    {
        assert(words@.subrange(0, i + 1).drop_last() =~= words@.subrange(0, i as int));
        push_rgba(&mut out, words[i]);
        i += 1;
    }
    assert(words@.subrange(0, i as int) =~= words@);
    out
}

impl<'arena> Interpreter<'arena> {
    /// Reads the frame of `pixels` pixels at `addr` from guest memory as
    /// RGBA bytes, or the error of the first pixel that cannot be loaded.
    pub fn read_frame(&self, addr: u32, pixels: u32) -> (r: Result<Vec<u8>, MemoryError>)
        requires
            self.wf(),
        ensures
            match frame_words(self.state().mem, addr, pixels as nat) {
                Err(e) => r == Err::<Vec<u8>, MemoryError>(e),
                Ok(ws) => r matches Ok(v) && v@ == rgba_frame(ws),
            },
    {
        let ghost m = self.state().mem;
        let mut out: Vec<u8> = Vec::new();
        let mut i: u32 = 0;
        let mut a: u32 = addr;
        proof {
            assert(pixel_addr(addr, 0) == addr);
        }
        while i < pixels
            invariant
                a == pixel_addr(addr, i as int),
                self.wf(),
                m == self.state().mem,
                i <= pixels,
                frame_words(m, addr, i as nat) is Ok,
                out@ == rgba_frame(frame_words(m, addr, i as nat)->Ok_0),
            decreases pixels - i,
        {
            let c = match self.load_u32(a) {
                Ok(c) => c,
                Err(e) => {
                    proof {
                        lemma_frame_err_stays(m, addr, (i + 1) as nat, pixels as nat);
                    }
                    return Err(e);
                },
            };
            proof {
                let ws = frame_words(m, addr, i as nat)->Ok_0;
                assert(frame_words(m, addr, (i + 1) as nat) == Ok::<Seq<u32>, MemoryError>(ws.push(c)));
                assert(ws.push(c).drop_last() =~= ws);
            }
            push_rgba(&mut out, c);
            proof {
                lemma_next_pixel(addr, i as int);
            }
            a = a.wrapping_add(4);
            i += 1;
        }
        Ok(out)
    }
}

} // verus!
