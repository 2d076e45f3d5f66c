use vstd::prelude::*;

verus! {

/// Size of a page of the guest's address space.
pub const PAGE_SIZE: u32 = 0x1000;

/// Number of pages in the 32-bit address space.
pub const PAGE_COUNT: usize = 0x100000;

/// What the trap page holds, repeated: `c.ebreak` followed by `c.ret`.
pub const TRAP: [u8; 4] = [0x02, 0x90, 0x82, 0x80];

/// Why a memory access or a mapping failed.
#[derive(Debug, Clone, Copy, PartialEq, Eq, Structural)]
pub enum MemoryError {
    /// A load touched this unmapped address.
    OutOfBoundsLoad(u32),
    /// A store touched this unmapped address.
    OutOfBoundsStore(u32),
    /// A buffer to map is not a whole number of pages long.
    BufferNotPageSized,
    /// An address to map at is not at the start of a page.
    AddressNotPageAligned,
    /// A buffer to map would reach past the end of the address space.
    RegionOutOfRange,
    /// A page to map (this page number) is mapped already.
    PageAlreadyMapped(u32),
}

/// Where a mapped page lives: a buffer and the offset of the page in it.
#[derive(Clone, Copy)]
struct TlbEntry {
    buf: usize,
    offset: usize,
}

/// A sparse 32-bit address space, mapped page by page onto buffers.
pub struct Memory {
    bufs: Vec<Vec<u8>>,
    tlb: Vec<Option<TlbEntry>>,
}

/// The address `i` bytes after `addr`, wrapping around the address space.
pub open spec fn byte_addr(addr: u32, i: int) -> u32 {
    ((addr + i) % 0x1_0000_0000) as u32
}

/// Whether the `n` bytes from `addr` on are all mapped.
pub open spec fn all_mapped(m: Map<u32, u8>, addr: u32, n: nat) -> bool {
    forall|k: int| 0 <= k < n ==> #[trigger] m.dom().contains(byte_addr(addr, k))
}

/// Whether byte `j` from `addr` on is the first of them that is unmapped.
pub open spec fn is_first_unmapped(m: Map<u32, u8>, addr: u32, j: nat) -> bool {
    &&& all_mapped(m, addr, j)
    &&& !m.dom().contains(byte_addr(addr, j as int))
}

/// The `n` bytes from `addr` on.
pub open spec fn bytes_at(m: Map<u32, u8>, addr: u32, n: nat) -> Seq<u8> {
    Seq::new(n, |k: int| m[byte_addr(addr, k)])
}

/// `m` with `bs` written from `addr` on.
pub open spec fn write_bytes(m: Map<u32, u8>, addr: u32, bs: Seq<u8>) -> Map<u32, u8>
    decreases bs.len(),
{
    if bs.len() == 0 {
        m
    } else {
        write_bytes(m, addr, bs.drop_last()).insert(
            byte_addr(addr, bs.len() - 1),
            bs[bs.len() - 1],
        )
    }
}

/// What a load of `n` bytes from `addr` gives: the bytes, or the first
/// unmapped address among them.
pub open spec fn load_bytes(m: Map<u32, u8>, addr: u32, n: nat) -> Result<Seq<u8>, MemoryError> {
    if all_mapped(m, addr, n) {
        Ok(bytes_at(m, addr, n))
    } else {
        Err(
            MemoryError::OutOfBoundsLoad(
                byte_addr(addr, (choose|j: nat| j < n && is_first_unmapped(m, addr, j)) as int),
            ),
        )
    }
}

/// How a store of `bs` from `addr` on leaves memory: every byte up to the
/// first unmapped address is written.
pub open spec fn store_bytes_state(m: Map<u32, u8>, addr: u32, bs: Seq<u8>) -> Map<u32, u8> {
    if all_mapped(m, addr, bs.len()) {
        write_bytes(m, addr, bs)
    } else {
        write_bytes(
            m,
            addr,
            bs.take((choose|j: nat| j < bs.len() && is_first_unmapped(m, addr, j)) as int),
        )
    }
}

/// What a store of `bs` from `addr` on returns.
pub open spec fn store_bytes_result(m: Map<u32, u8>, addr: u32, bs: Seq<u8>) -> Result<
    (),
    MemoryError,
> {
    if all_mapped(m, addr, bs.len()) {
        Ok(())
    } else {
        Err(
            MemoryError::OutOfBoundsStore(
                byte_addr(
                    addr,
                    (choose|j: nat| j < bs.len() && is_first_unmapped(m, addr, j)) as int,
                ),
            ),
        )
    }
}

/// Little-endian bytes of a 16-bit value.
pub open spec fn le_bytes_u16(v: u16) -> Seq<u8> {
    seq![(v % 256) as u8, ((v / 256) % 256) as u8]
}

/// Little-endian bytes of a 32-bit value.
pub open spec fn le_bytes_u32(v: u32) -> Seq<u8> {
    seq![
        (v % 256) as u8,
        ((v / 256) % 256) as u8,
        ((v / 0x10000) % 256) as u8,
        ((v / 0x1000000) % 256) as u8,
    ]
}

/// Little-endian bytes of a 64-bit value.
pub open spec fn le_bytes_u64(v: u64) -> Seq<u8> {
    le_bytes_u32((v % 0x1_0000_0000) as u32) + le_bytes_u32((v / 0x1_0000_0000) as u32)
}

/// The 16-bit value with little-endian bytes `bs`.
pub open spec fn u16_from_le(bs: Seq<u8>) -> u16 {
    (bs[0] + 256 * bs[1]) as u16
}

/// The 32-bit value with little-endian bytes `bs`.
pub open spec fn u32_from_le(bs: Seq<u8>) -> u32 {
    (bs[0] + 256 * bs[1] + 0x10000 * bs[2] + 0x1000000 * bs[3]) as u32
}

/// The 64-bit value with little-endian bytes `bs`.
pub open spec fn u64_from_le(bs: Seq<u8>) -> u64 {
    (u32_from_le(bs.subrange(0, 4)) + 0x1_0000_0000 * u32_from_le(bs.subrange(4, 8))) as u64
}

/// Whether no address of page `p` is mapped.
pub open spec fn page_free(m: Map<u32, u8>, p: int) -> bool {
    !m.dom().contains((p * 0x1000) as u32)
}

/// How many of the `n` pages from page `p` on are free before the first
/// taken one.
pub open spec fn free_prefix(m: Map<u32, u8>, p: int, n: nat) -> nat
    decreases n,
{
    if n == 0 {
        0
    } else if !page_free(m, p) {
        0
    } else {
        1 + free_prefix(m, p + 1, (n - 1) as nat)
    }
}

/// `m` with the first `k` pages of `buf` mapped from `addr` on.
pub open spec fn mount_pages(m: Map<u32, u8>, buf: Seq<u8>, addr: u32, k: nat) -> Map<u32, u8> {
    Map::new(
        |a: u32| m.dom().contains(a) || (addr <= a < addr + k * 0x1000),
        |a: u32|
            if addr <= a < addr + k * 0x1000 {
                buf[a - addr]
            } else {
                m[a]
            },
    )
}

/// What `mount` returns.
pub open spec fn mount_result(m: Map<u32, u8>, len: nat, addr: u32) -> Result<(), MemoryError> {
    if len % 0x1000 != 0 {
        Err(MemoryError::BufferNotPageSized)
    } else if addr % 0x1000 != 0 {
        Err(MemoryError::AddressNotPageAligned)
    } else if addr / 0x1000 + len / 0x1000 > 0x100000 {
        Err(MemoryError::RegionOutOfRange)
    } else {
        let k = free_prefix(m, (addr / 0x1000) as int, len / 0x1000);
        if k == len / 0x1000 {
            Ok(())
        } else {
            Err(MemoryError::PageAlreadyMapped((addr / 0x1000 + k) as u32))
        }
    }
}

/// How `mount` leaves memory: nothing changes on a misaligned or oversized
/// request; otherwise the pages before the first taken one are mapped.
pub open spec fn mount_state(m: Map<u32, u8>, buf: Seq<u8>, addr: u32) -> Map<u32, u8> {
    let len = buf.len();
    if len % 0x1000 != 0 || addr % 0x1000 != 0 || addr / 0x1000 + len / 0x1000 > 0x100000 {
        m
    } else {
        mount_pages(m, buf, addr, free_prefix(m, (addr / 0x1000) as int, len / 0x1000))
    }
}

/// Whether `a` lies in one of the regions that a fresh memory maps.
pub open spec fn initially_mapped(a: u32) -> bool {
    ||| 0x10000 <= a < 0x10000000
    ||| 0xe0000000 <= a < 0xe0001000
    ||| 0xf0000000 <= a
}

/// The contents of a fresh memory: zeros, except for the trap page.
pub open spec fn initial_byte(a: u32) -> u8 {
    if 0xe0000000 <= a < 0xe0001000 {
        TRAP@[(a % 4) as int]
    } else {
        0
    }
}

proof fn lemma_addr_split(a: u32)
    ensures
        a >> 12 == a / 0x1000,
        a & 0xfff == a % 0x1000,
        a >> 12 < 0x100000,
{
    assert(a >> 12 == a / 0x1000) by (bit_vector);
    assert(a & 0xfff == a % 0x1000) by (bit_vector);
    assert(a >> 12 < 0x100000) by (bit_vector);
}

/// A buffer of `len` zero bytes.
pub fn zeroed_buffer(len: usize) -> (r: Vec<u8>)
    ensures
        r@ == Seq::new(len as nat, |i: int| 0u8),
{
    let r = vec![0u8; len];
    assert(r@ =~= Seq::new(len as nat, |i: int| 0u8));
    r
}

impl Memory {
    /// The mapped bytes of the address space.
    pub closed spec fn view(&self) -> Map<u32, u8> {
        Map::new(
            |a: u32| self.tlb@[(a / 0x1000) as int] is Some,
            |a: u32|
                {
                    let e = self.tlb@[(a / 0x1000) as int]->Some_0;
                    self.bufs@[e.buf as int]@[(e.offset + a % 0x1000) as int]
                },
        )
    }

    /// The mapping is well formed: one entry per page, each inside its
    /// buffer, and no two pages sharing the same bytes.
    pub closed spec fn wf(&self) -> bool {
        &&& self.tlb@.len() == 0x100000
        &&& forall|p: int|
            0 <= p < 0x100000 && #[trigger] self.tlb@[p] is Some ==> {
                let e = self.tlb@[p]->Some_0;
                &&& e.buf < self.bufs@.len()
                &&& e.offset % 0x1000 == 0
                &&& e.offset + 0x1000 <= self.bufs@[e.buf as int]@.len()
            }
        &&& forall|p: int, q: int|
            0 <= p < 0x100000 && 0 <= q < 0x100000 && p != q && #[trigger] self.tlb@[p] is Some
                && #[trigger] self.tlb@[q] is Some ==> {
                let e = self.tlb@[p]->Some_0;
                let f = self.tlb@[q]->Some_0;
                e.buf != f.buf || e.offset != f.offset
            }
    }

    /// The address space is mapped in whole pages: two addresses of the
    /// same page are both mapped or both unmapped.
    pub proof fn law_page_granular(&self, a: u32, b: u32)
        requires
            self.wf(),
            a / 0x1000 == b / 0x1000,
        ensures
            self@.dom().contains(a) == self@.dom().contains(b),
    {
    }

    /// Where the byte at `addr` lives, if it is mapped.
    fn translate(&self, addr: u32) -> (r: Option<(usize, usize)>)
        requires
            self.wf(),
        ensures
            r is Some <==> self@.dom().contains(addr),
            r matches Some((b, i)) ==> b < self.bufs@.len() && i < self.bufs@[b as int]@.len()
                && self.bufs@[b as int]@[i as int] == self@[addr] && b == self.tlb@[(addr
                / 0x1000) as int]->Some_0.buf && i == self.tlb@[(addr / 0x1000) as int]->Some_0.offset
                + addr % 0x1000,
    {
        proof {
            lemma_addr_split(addr);
        }
        let off = (addr & 0xfff) as usize;
        let page = (addr >> 12) as usize;
        match self.tlb[page] {
            Some(e) => Some((e.buf, e.offset + off)),
            None => None,
        }
    }

    /// The error for an access to an unmapped address.
    pub fn oob<const STORE: bool>(&self, addr: u32) -> (e: MemoryError)
        ensures
            e == (if STORE {
                MemoryError::OutOfBoundsStore(addr)
            } else {
                MemoryError::OutOfBoundsLoad(addr)
            }),
    {
        if STORE {
            MemoryError::OutOfBoundsStore(addr)
        } else {
            MemoryError::OutOfBoundsLoad(addr)
        }
    }

    /// The byte at `addr`.
    pub fn load_u8(&self, addr: u32) -> (r: Result<u8, MemoryError>)
        requires
            self.wf(),
        ensures
            r == (if self@.dom().contains(addr) {
                Ok(self@[addr])
            } else {
                Err(MemoryError::OutOfBoundsLoad(addr))
            }),
    {
        match self.translate(addr) {
            Some((b, i)) => Ok(self.bufs[b][i]),
            None => Err(self.oob::<false>(addr)),
        }
    }

    /// The byte at `addr`, as a signed number.
    pub fn load_i8(&self, addr: u32) -> (r: Result<i8, MemoryError>)
        requires
            self.wf(),
        ensures
            r == (if self@.dom().contains(addr) {
                Ok(self@[addr] as i8)
            } else {
                Err(MemoryError::OutOfBoundsLoad(addr))
            }),
    {
        match self.translate(addr) {
            Some((b, i)) => Ok(self.bufs[b][i] as i8),
            None => Err(self.oob::<false>(addr)),
        }
    }

    /// Writes `value` at `addr`.
    pub fn store_u8(&mut self, addr: u32, value: u8) -> (r: Result<(), MemoryError>)
        requires
            old(self).wf(),
        ensures
            final(self).wf(),
            r == (if old(self)@.dom().contains(addr) {
                Ok(())
            } else {
                Err(MemoryError::OutOfBoundsStore(addr))
            }),
            final(self)@ == (if old(self)@.dom().contains(addr) {
                old(self)@.insert(addr, value)
            } else {
                old(self)@
            }),
    {
        match self.translate(addr) {
            Some((b, i)) => {
                self.bufs[b].set(i, value);
                proof {
                    lemma_addr_split(addr);
                    assert forall|a: u32| #[trigger] self@.dom().contains(a)
                        == old(self)@.insert(addr, value).dom().contains(a) by {}
                    assert forall|a: u32| #[trigger] self@.dom().contains(a) implies
                        self@[a] == old(self)@.insert(addr, value)[a] by {
                        if a != addr {
                            let p = (a / 0x1000) as int;
                            let q = (addr / 0x1000) as int;
                            let e = old(self).tlb@[p]->Some_0;
                            let f = old(self).tlb@[q]->Some_0;
                            assert(old(self).tlb@[p] is Some && old(self).tlb@[q] is Some);
                            assert(e.buf != f.buf || e.offset + a % 0x1000 != f.offset + addr
                                % 0x1000);
                        }
                    }
                    assert(self@ =~= old(self)@.insert(addr, value));
                }
                Ok(())
            },
            None => Err(self.oob::<true>(addr)),
        }
    }
}


proof fn lemma_free_prefix(m: Map<u32, u8>, p: int, n: nat, i: nat)
    requires
        i <= n,
        forall|k: int| 0 <= k < i ==> #[trigger] page_free(m, p + k),
        i == n || !page_free(m, p + i),
    ensures
        free_prefix(m, p, n) == i,
    decreases i,
{
    if i > 0 {
        assert(page_free(m, p + 0));
        assert forall|k: int| 0 <= k < i - 1 implies #[trigger] page_free(m, (p + 1) + k) by {
            assert(page_free(m, p + (k + 1)));
            assert(p + (k + 1) == (p + 1) + k);
        }
        assert(i - 1 == n - 1 || !page_free(m, (p + 1) + (i - 1))) by {
            assert(p + i == (p + 1) + (i - 1));
        }
        lemma_free_prefix(m, p + 1, (n - 1) as nat, (i - 1) as nat);
    } else {
        if n > 0 {
            assert(!page_free(m, p + 0));
            assert(p + 0 == p);
        }
    }
}

/// Byte `j` is the only first unmapped byte.
pub proof fn lemma_first_unmapped_unique(m: Map<u32, u8>, addr: u32, j: nat, n: nat)
    requires
        j < n,
        is_first_unmapped(m, addr, j),
    ensures
        !all_mapped(m, addr, n),
        (choose|k: nat| k < n && is_first_unmapped(m, addr, k)) == j,
{
    assert(!m.dom().contains(byte_addr(addr, j as int)));
    let k = choose|k: nat| k < n && is_first_unmapped(m, addr, k);
    assert(k < n && is_first_unmapped(m, addr, k));
    if k < j {
        assert(m.dom().contains(byte_addr(addr, k as int)));
    }
    if j < k {
        assert(m.dom().contains(byte_addr(addr, j as int)));
    }
}

proof fn lemma_write_bytes_dom(m: Map<u32, u8>, addr: u32, bs: Seq<u8>)
    requires
        all_mapped(m, addr, bs.len()),
    ensures
        write_bytes(m, addr, bs).dom() =~= m.dom(),
    decreases bs.len(),
{
    if bs.len() > 0 {
        lemma_write_bytes_dom(m, addr, bs.drop_last());
        assert(m.dom().contains(byte_addr(addr, bs.len() - 1)));
    }
}

impl Memory {
    /// An address space with nothing mapped.
    fn empty() -> (r: Memory)
        ensures
            r.wf(),
            r@ == Map::<u32, u8>::empty(),
    {
        let mut tlb: Vec<Option<TlbEntry>> = Vec::new();
        let mut i: usize = 0;
        while i < PAGE_COUNT
            invariant
                i <= PAGE_COUNT,
                tlb@.len() == i,
                forall|p: int| 0 <= p < i ==> #[trigger] tlb@[p] is None,
            decreases PAGE_COUNT - i,
        {
            tlb.push(None);
            i += 1;
        }
        let r = Memory { bufs: Vec::new(), tlb };
        assert(r@ =~= Map::<u32, u8>::empty()) by {
            assert forall|a: u32| !r@.dom().contains(a) by {
                assert(r.tlb@[(a / 0x1000) as int] is None);
            }
        }
        r
    }

    /// Maps `buf` page by page from `addr` on.  Stops at the first page that
    /// is mapped already, leaving the pages before it mapped.
    pub fn mount(&mut self, buf: Vec<u8>, addr: u32) -> (r: Result<(), MemoryError>)
        requires
            old(self).wf(),
        ensures
            final(self).wf(),
            r == mount_result(old(self)@, buf@.len(), addr),
            final(self)@ == mount_state(old(self)@, buf@, addr),
    {
        let len = buf.len();
        if len & 0xfff != 0 {
            assert(len & 0xfff == len % 0x1000) by (bit_vector);
            return Err(MemoryError::BufferNotPageSized);
        }
        assert(len & 0xfff == len % 0x1000) by (bit_vector);
        if addr & 0xfff != 0 {
            proof {
                lemma_addr_split(addr);
            }
            return Err(MemoryError::AddressNotPageAligned);
        }
        proof {
            lemma_addr_split(addr);
        }
        let page1 = (addr >> 12) as usize;
        let npages = len >> 12;
        assert(len >> 12 == len / 0x1000) by (bit_vector);
        if npages + page1 > PAGE_COUNT {
            return Err(MemoryError::RegionOutOfRange);
        }
        let ghost m0 = self@;
        let b = self.bufs.len();
        self.bufs.push(buf);
        assert(self@ =~= m0) by {
            assert forall|a: u32| #[trigger] self@.dom().contains(a) implies self@[a] == m0[a] by {
                let e = self.tlb@[(a / 0x1000) as int]->Some_0;
                assert(self.bufs@[e.buf as int] == old(self).bufs@[e.buf as int]);
            }
        }
        let mut i: usize = 0;
        while i < npages
            invariant
                old(self).wf(),
                m0 == old(self)@,
                b == old(self).bufs@.len(),
                self.bufs@.len() == b + 1,
                self.bufs@[b as int]@ == buf@,
                forall|j: int| 0 <= j < b ==> self.bufs@[j] == old(self).bufs@[j],
                self.tlb@.len() == 0x100000,
                page1 == addr / 0x1000,
                npages == buf@.len() / 0x1000,
                buf@.len() % 0x1000 == 0,
                addr % 0x1000 == 0,
                page1 + npages <= 0x100000,
                i <= npages,
                forall|p: int|
                    0 <= p < 0x100000 && !(page1 <= p < page1 + i) ==> self.tlb@[p]
                        == old(self).tlb@[p],
                forall|k: int|
                    0 <= k < i ==> #[trigger] self.tlb@[page1 + k] == Some(
                        TlbEntry { buf: b, offset: (k * 0x1000) as usize },
                    ),
                forall|k: int| 0 <= k < i ==> #[trigger] page_free(m0, page1 + k),
                self.wf(),
                self@ == mount_pages(m0, buf@, addr, i as nat),
            decreases npages - i,
        {
            assert(page_free(m0, page1 + i as int) <==> old(self).tlb@[page1 + i] is None) by {
                let a = ((page1 + i) * 0x1000) as u32;
                assert(a / 0x1000 == page1 + i);
            }
            if self.tlb[page1 + i].is_some() {
                proof {
                    lemma_free_prefix(m0, page1 as int, npages as nat, i as nat);
                }
                return Err(MemoryError::PageAlreadyMapped((page1 + i) as u32));
            }
            let ghost before = *self;
            self.tlb.set(page1 + i, Some(TlbEntry { buf: b, offset: i * 0x1000 }));
            proof {
                assert forall|p: int, q: int|
                    0 <= p < 0x100000 && 0 <= q < 0x100000 && p != q
                        && #[trigger] self.tlb@[p] is Some && #[trigger] self.tlb@[q] is Some implies {
                    let e = self.tlb@[p]->Some_0;
                    let f = self.tlb@[q]->Some_0;
                    e.buf != f.buf || e.offset != f.offset
                } by {
                    if p == page1 + i {
                        if page1 <= q < page1 + i {
                            assert(self.tlb@[page1 + (q - page1)] == Some(
                                TlbEntry { buf: b, offset: ((q - page1) * 0x1000) as usize },
                            ));
                        } else {
                            assert(self.tlb@[q] == old(self).tlb@[q]);
                        }
                    } else if q == page1 + i {
                        if page1 <= p < page1 + i {
                            assert(self.tlb@[page1 + (p - page1)] == Some(
                                TlbEntry { buf: b, offset: ((p - page1) * 0x1000) as usize },
                            ));
                        } else {
                            assert(self.tlb@[p] == old(self).tlb@[p]);
                        }
                    } else {
                        assert(before.tlb@[p] == self.tlb@[p]);
                        assert(before.tlb@[q] == self.tlb@[q]);
                    }
                }
                assert forall|k: int| 0 <= k < i + 1 implies #[trigger] self.tlb@[page1 + k]
                    == Some(TlbEntry { buf: b, offset: (k * 0x1000) as usize }) by {
                    if k < i {
                        assert(before.tlb@[page1 + k] == self.tlb@[page1 + k]);
                    }
                }
                assert forall|k: int| 0 <= k < i + 1 implies #[trigger] page_free(m0, page1 + k) by {
                    if k < i {
                        assert(page_free(m0, page1 + k));
                    }
                }
                let target = mount_pages(m0, buf@, addr, (i + 1) as nat);
                assert forall|a: u32| #[trigger] self@.dom().contains(a) == target.dom().contains(a)
                    by {
                    let p = (a / 0x1000) as int;
                    if p == page1 + i {
                    } else if page1 <= p < page1 + i {
                        assert(self.tlb@[page1 + (p - page1)] is Some);
                    } else {
                        assert(self.tlb@[p] == old(self).tlb@[p]);
                    }
                }
                assert forall|a: u32| #[trigger] self@.dom().contains(a) implies self@[a]
                    == target[a] by {
                    let p = (a / 0x1000) as int;
                    if page1 <= p < page1 + i + 1 {
                        assert(self.tlb@[page1 + (p - page1)] == Some(
                            TlbEntry { buf: b, offset: ((p - page1) * 0x1000) as usize },
                        ));
                    } else {
                        assert(self.tlb@[p] == old(self).tlb@[p]);
                        let e = self.tlb@[p]->Some_0;
                        assert(self.bufs@[e.buf as int] == old(self).bufs@[e.buf as int]);
                    }
                }
                assert(self@ =~= target);
            }
            i += 1;
        }
        proof {
            lemma_free_prefix(m0, page1 as int, npages as nat, npages as nat);
        }
        Ok(())
    }
}


impl Memory {
    /// The guest's initial address space: zeroed memory at
    /// 0x00010000..0x10000000 and at 0xf0000000..=0xffffffff, and at
    /// 0xe0000000 a page of trap stubs (`c.ebreak; c.ret` repeated).
    pub fn new() -> (r: Memory)
        ensures
            r.wf(),
            forall|a: u32| #[trigger] r@.dom().contains(a) <==> initially_mapped(a),
            forall|a: u32| initially_mapped(a) ==> #[trigger] r@[a] == initial_byte(a),
    {
        let mut this = Memory::empty();
        let low = zeroed_buffer(0x10000000 - 0x10000);
        proof {
            lemma_free_prefix(this@, 0x10, 0xfff0, 0xfff0);
        }
        let r1 = this.mount(low, 0x10000);
        let ghost m1 = this@;
        let high = zeroed_buffer(0x10000000);
        proof {
            assert forall|k: int| 0 <= k < 0x10000 implies #[trigger] page_free(m1, 0xf0000 + k) by {
                assert(((0xf0000 + k) * 0x1000) as u32 == (0xf0000 + k) * 0x1000);
            }
            lemma_free_prefix(m1, 0xf0000, 0x10000, 0x10000);
        }
        let r2 = this.mount(high, 0xf0000000);
        let ghost m2 = this@;
        let mut trap_buf = zeroed_buffer(0x1000);
        let mut j: usize = 0;
        while j < 0x1000
            invariant
                j <= 0x1000,
                trap_buf@.len() == 0x1000,
                forall|k: int| 0 <= k < j ==> #[trigger] trap_buf@[k] == TRAP@[k % 4],
            decreases 0x1000 - j,
        {
            trap_buf.set(j, TRAP[j % 4]);
            j += 1;
        }
        proof {
            assert(page_free(m2, 0xe0000)) by {
                assert((0xe0000 * 0x1000) as u32 == 0xe0000000u32);
            }
            lemma_free_prefix(m2, 0xe0000, 1, 1);
        }
        let ghost trap = trap_buf@;
        let r3 = this.mount(trap_buf, 0xe0000000);
        proof {
            assert forall|a: u32| #[trigger] this@.dom().contains(a) <==> initially_mapped(a) by {}
            assert forall|a: u32| initially_mapped(a) implies #[trigger] this@[a] == initial_byte(
                a,
            ) by {
                if 0xe0000000 <= a < 0xe0001000 {
                    assert(trap[a - 0xe0000000] == TRAP@[(a - 0xe0000000) % 4]);
                    assert((a - 0xe0000000) % 4 == a % 4);
                }
            }
        }
        this
    }

    /// Reads `n` bytes from `addr` on, stopping at the first unmapped one.
    fn load_le(&self, addr: u32, n: u32) -> (r: Result<Vec<u8>, MemoryError>)
        requires
            self.wf(),
        ensures
            match load_bytes(self@, addr, n as nat) {
                Ok(bs) => r matches Ok(v) && v@ == bs,
                Err(e) => r == Err::<Vec<u8>, MemoryError>(e),
            },
    {
        let mut out: Vec<u8> = Vec::new();
        let mut i: u32 = 0;
        while i < n
            invariant
                self.wf(),
                i <= n,
                all_mapped(self@, addr, i as nat),
                out@ == bytes_at(self@, addr, i as nat),
            decreases n - i,
        {
            let a = addr.wrapping_add(i);
            assert(a == byte_addr(addr, i as int));
            match self.load_u8(a) {
                Ok(b) => {
                    out.push(b);
                    assert(out@ =~= bytes_at(self@, addr, (i + 1) as nat));
                },
                Err(e) => {
                    proof {
                        assert(is_first_unmapped(self@, addr, i as nat));
                        lemma_first_unmapped_unique(self@, addr, i as nat, n as nat);
                    }
                    return Err(e);
                },
            }
            i += 1;
        }
        Ok(out)
    }

    /// Writes `bs` from `addr` on, stopping at the first unmapped byte.
    fn store_le(&mut self, addr: u32, bs: &[u8]) -> (r: Result<(), MemoryError>)
        requires
            old(self).wf(),
            bs@.len() < 0x1_0000_0000,
        ensures
            final(self).wf(),
            r == store_bytes_result(old(self)@, addr, bs@),
            final(self)@ == store_bytes_state(old(self)@, addr, bs@),
    {
        let ghost m0 = self@;
        let mut i: usize = 0;
        assert(bs@.take(0) =~= Seq::<u8>::empty());
        while i < bs.len()
            invariant
                self.wf(),
                m0 == old(self)@,
                i <= bs@.len() < 0x1_0000_0000,
                all_mapped(m0, addr, i as nat),
                self@ == write_bytes(m0, addr, bs@.take(i as int)),
            decreases bs@.len() - i,
        {
            let a = addr.wrapping_add(i as u32);
            assert(a == byte_addr(addr, i as int));
            proof {
                lemma_write_bytes_dom(m0, addr, bs@.take(i as int));
            }
            match self.store_u8(a, bs[i]) {
                Ok(()) => {
                    assert(bs@.take(i + 1).drop_last() =~= bs@.take(i as int));
                },
                Err(e) => {
                    proof {
                        assert(is_first_unmapped(m0, addr, i as nat));
                        lemma_first_unmapped_unique(m0, addr, i as nat, bs@.len());
                    }
                    return Err(e);
                },
            }
            i += 1;
        }
        assert(bs@.take(bs@.len() as int) =~= bs@);
        Ok(())
    }

    /// Writes the bytes of `bs` from `addr` on, one at a time, stopping at
    /// the first unmapped address.
    pub fn store_slice(&mut self, addr: u32, bs: &[u8]) -> (r: Result<(), MemoryError>)
        requires
            old(self).wf(),
            bs@.len() < 0x1_0000_0000,
        ensures
            final(self).wf(),
            r == store_bytes_result(old(self)@, addr, bs@),
            final(self)@ == store_bytes_state(old(self)@, addr, bs@),
    {
        self.store_le(addr, bs)
    }

    /// The little-endian 16-bit value at `addr`.
    pub fn load_u16(&self, addr: u32) -> (r: Result<u16, MemoryError>)
        requires
            self.wf(),
        ensures
            r == (match load_bytes(self@, addr, 2) {
                Ok(bs) => Ok(u16_from_le(bs)),
                Err(e) => Err(e),
            }),
    {
        let bs = self.load_le(addr, 2)?;
        Ok(bs[0] as u16 + bs[1] as u16 * 256)
    }

    /// The little-endian 16-bit value at `addr`, as a signed number.
    pub fn load_i16(&self, addr: u32) -> (r: Result<i16, MemoryError>)
        requires
            self.wf(),
        ensures
            r == (match load_bytes(self@, addr, 2) {
                Ok(bs) => Ok(u16_from_le(bs) as i16),
                Err(e) => Err(e),
            }),
    {
        let v = self.load_u16(addr)?;
        Ok(v as i16)
    }

    /// The little-endian 32-bit value at `addr`.
    pub fn load_u32(&self, addr: u32) -> (r: Result<u32, MemoryError>)
        requires
            self.wf(),
        ensures
            r == (match load_bytes(self@, addr, 4) {
                Ok(bs) => Ok(u32_from_le(bs)),
                Err(e) => Err(e),
            }),
    {
        let bs = self.load_le(addr, 4)?;
        Ok(bs[0] as u32 + bs[1] as u32 * 0x100 + bs[2] as u32 * 0x10000 + bs[3] as u32 * 0x1000000)
    }

    /// The little-endian 64-bit value at `addr` (the bits of a double).
    pub fn load_u64(&self, addr: u32) -> (r: Result<u64, MemoryError>)
        requires
            self.wf(),
        ensures
            r == (match load_bytes(self@, addr, 8) {
                Ok(bs) => Ok(u64_from_le(bs)),
                Err(e) => Err(e),
            }),
    {
        let bs = self.load_le(addr, 8)?;
        let lo = bs[0] as u64 + bs[1] as u64 * 0x100 + bs[2] as u64 * 0x10000 + bs[3] as u64
            * 0x1000000;
        let hi = bs[4] as u64 + bs[5] as u64 * 0x100 + bs[6] as u64 * 0x10000 + bs[7] as u64
            * 0x1000000;
        proof {
            let s = bs@;
            assert(u32_from_le(s.subrange(0, 4)) == lo);
            assert(u32_from_le(s.subrange(4, 8)) == hi);
        }
        Ok(lo + hi * 0x1_0000_0000)
    }

    /// Writes the little-endian bytes of `value` at `addr`, stopping at the
    /// first unmapped byte.
    pub fn store_u16(&mut self, addr: u32, value: u16) -> (r: Result<(), MemoryError>)
        requires
            old(self).wf(),
        ensures
            final(self).wf(),
            r == store_bytes_result(old(self)@, addr, le_bytes_u16(value)),
            final(self)@ == store_bytes_state(old(self)@, addr, le_bytes_u16(value)),
    {
        let bytes = [(value % 256) as u8, ((value / 256) % 256) as u8];
        assert(bytes@ =~= le_bytes_u16(value));
        self.store_le(addr, &bytes)
    }

    /// Writes the little-endian bytes of `value` at `addr`, stopping at the
    /// first unmapped byte.
    pub fn store_u32(&mut self, addr: u32, value: u32) -> (r: Result<(), MemoryError>)
        requires
            old(self).wf(),
        ensures
            final(self).wf(),
            r == store_bytes_result(old(self)@, addr, le_bytes_u32(value)),
            final(self)@ == store_bytes_state(old(self)@, addr, le_bytes_u32(value)),
    {
        let bytes = [
            (value % 256) as u8,
            ((value / 256) % 256) as u8,
            ((value / 0x10000) % 256) as u8,
            ((value / 0x1000000) % 256) as u8,
        ];
        assert(bytes@ =~= le_bytes_u32(value));
        self.store_le(addr, &bytes)
    }

    /// Writes the little-endian bytes of `value` (the bits of a double) at
    /// `addr`, stopping at the first unmapped byte.
    pub fn store_u64(&mut self, addr: u32, value: u64) -> (r: Result<(), MemoryError>)
        requires
            old(self).wf(),
        ensures
            final(self).wf(),
            r == store_bytes_result(old(self)@, addr, le_bytes_u64(value)),
            final(self)@ == store_bytes_state(old(self)@, addr, le_bytes_u64(value)),
    {
        let lo = (value % 0x1_0000_0000) as u32;
        let hi = (value / 0x1_0000_0000) as u32;
        let bytes = [
            (lo % 256) as u8,
            ((lo / 256) % 256) as u8,
            ((lo / 0x10000) % 256) as u8,
            ((lo / 0x1000000) % 256) as u8,
            (hi % 256) as u8,
            ((hi / 256) % 256) as u8,
            ((hi / 0x10000) % 256) as u8,
            ((hi / 0x1000000) % 256) as u8,
        ];
        assert(bytes@ =~= le_bytes_u64(value));
        self.store_le(addr, &bytes)
    }
}


/// Where some of `n` bytes are unmapped, one of them is the first.
pub proof fn lemma_first_unmapped_exists(m: Map<u32, u8>, addr: u32, n: nat)
    requires
        !all_mapped(m, addr, n),
    ensures
        exists|j: nat| j < n && is_first_unmapped(m, addr, j),
    decreases n,
{
    if n == 0 {
    } else if !all_mapped(m, addr, (n - 1) as nat) {
        lemma_first_unmapped_exists(m, addr, (n - 1) as nat);
        let j = choose|j: nat| j < n - 1 && is_first_unmapped(m, addr, j);
        assert(j < n && is_first_unmapped(m, addr, j));
    } else {
        let j = (n - 1) as nat;
        assert(!m.dom().contains(byte_addr(addr, j as int)));
        assert(is_first_unmapped(m, addr, j));
    }
}

/// A one-byte store in terms of a single update.
pub proof fn lemma_store_one_byte(m: Map<u32, u8>, addr: u32, b: u8)
    ensures
        store_bytes_state(m, addr, seq![b]) == (if m.dom().contains(addr) {
            m.insert(addr, b)
        } else {
            m
        }),
        store_bytes_result(m, addr, seq![b]) == (if m.dom().contains(addr) {
            Ok::<(), MemoryError>(())
        } else {
            Err(MemoryError::OutOfBoundsStore(addr))
        }),
{
    assert(byte_addr(addr, 0) == addr);
    let s = seq![b];
    if m.dom().contains(addr) {
        assert(all_mapped(m, addr, 1));
        assert(s.drop_last() =~= Seq::<u8>::empty());
        assert(write_bytes(m, addr, Seq::<u8>::empty()) == m);
        assert(write_bytes(m, addr, s) == m.insert(addr, b));
    } else {
        assert(is_first_unmapped(m, addr, 0));
        lemma_first_unmapped_unique(m, addr, 0, 1);
        assert(s.take(0) =~= Seq::<u8>::empty());
        assert(write_bytes(m, addr, Seq::<u8>::empty()) == m);
    }
}

/// Writing `bs` puts byte `k` of it at the `k`-th address, provided the
/// bytes do not wrap onto each other, and leaves the other addresses alone.
proof fn lemma_write_bytes_at(m: Map<u32, u8>, addr: u32, bs: Seq<u8>, b: u32)
    requires
        bs.len() <= 0x1_0000_0000,
    ensures
        forall|k: int| 0 <= k < bs.len() ==> #[trigger] write_bytes(m, addr, bs)[byte_addr(addr, k)] == bs[k],
        (forall|k: int| 0 <= k < bs.len() ==> byte_addr(addr, k) != b) ==> write_bytes(m, addr, bs)[b] == m[b]
            && (write_bytes(m, addr, bs).dom().contains(b) == m.dom().contains(b)),
    decreases bs.len(),
{
    if bs.len() > 0 {
        let n = bs.len() - 1;
        lemma_write_bytes_at(m, addr, bs.drop_last(), b);
        assert(write_bytes(m, addr, bs) == write_bytes(m, addr, bs.drop_last()).insert(
            byte_addr(addr, n),
            bs[n],
        ));
        assert forall|k: int| 0 <= k < bs.len() implies #[trigger] write_bytes(m, addr, bs)[byte_addr(addr, k)] == bs[k] by {
            if k < n {
                assert(byte_addr(addr, k) != byte_addr(addr, n)) by {
                    assert(0 <= k < n < 0x1_0000_0000);
                    if addr + n < 0x1_0000_0000 {
                        assert(byte_addr(addr, n) == addr + n);
                        assert(addr + k < 0x1_0000_0000);
                        assert(byte_addr(addr, k) == addr + k);
                    } else if addr + k < 0x1_0000_0000 {
                        assert(byte_addr(addr, n) == addr + n - 0x1_0000_0000);
                        assert(byte_addr(addr, k) == addr + k);
                    } else {
                        assert(byte_addr(addr, n) == addr + n - 0x1_0000_0000);
                        assert(byte_addr(addr, k) == addr + k - 0x1_0000_0000);
                    }
                }
                assert(bs.drop_last()[k] == bs[k]);
            }
        }
    }
}

/// Storing into mapped memory never maps anything new, and a store whose
/// first byte is unmapped changes nothing.
pub proof fn law_store_keeps_mapping(m: Map<u32, u8>, addr: u32, bs: Seq<u8>)
    ensures
        store_bytes_state(m, addr, bs).dom() == m.dom(),
        !m.dom().contains(addr) ==> store_bytes_state(m, addr, bs) == m,
{
    assert(write_bytes(m, addr, Seq::<u8>::empty()) == m);
    assert(byte_addr(addr, 0) == addr);
    if all_mapped(m, addr, bs.len()) {
        lemma_write_bytes_dom(m, addr, bs);
        if !m.dom().contains(addr) {
            assert(bs =~= Seq::<u8>::empty());
        }
    } else {
        lemma_first_unmapped_exists(m, addr, bs.len());
        let j = choose|j: nat| j < bs.len() && is_first_unmapped(m, addr, j);
        lemma_write_bytes_dom(m, addr, bs.take(j as int));
        if !m.dom().contains(addr) {
            assert(byte_addr(addr, 0) == addr);
            assert(is_first_unmapped(m, addr, 0));
            lemma_first_unmapped_unique(m, addr, 0, bs.len());
            assert(bs.take(0) =~= Seq::<u8>::empty());
        }
    }
}

/// A store of `bs` into mapped memory succeeds, and loading as many bytes
/// from the same address gives `bs` back; every other address keeps its
/// byte.
pub proof fn law_load_after_store(m: Map<u32, u8>, addr: u32, bs: Seq<u8>, other: u32)
    requires
        all_mapped(m, addr, bs.len()),
        bs.len() <= 0x1_0000_0000,
    ensures
        store_bytes_result(m, addr, bs) == Ok::<(), MemoryError>(()),
        load_bytes(store_bytes_state(m, addr, bs), addr, bs.len()) == Ok::<Seq<u8>, MemoryError>(bs),
        (forall|k: int| 0 <= k < bs.len() ==> byte_addr(addr, k) != other) ==> store_bytes_state(
            m,
            addr,
            bs,
        )[other] == m[other],
{
    let w = store_bytes_state(m, addr, bs);
    lemma_write_bytes_dom(m, addr, bs);
    lemma_write_bytes_at(m, addr, bs, other);
    assert(all_mapped(w, addr, bs.len()));
    assert(bytes_at(w, addr, bs.len()) =~= bs);
}

/// The little-endian bytes of a 16-bit value read back as the value.
pub proof fn law_le_u16_roundtrip(v: u16)
    ensures
        u16_from_le(le_bytes_u16(v)) == v,
{
}

/// The little-endian bytes of a 32-bit value read back as the value.
pub proof fn law_le_u32_roundtrip(v: u32)
    ensures
        u32_from_le(le_bytes_u32(v)) == v,
{
}

/// The little-endian bytes of a 64-bit value read back as the value.
pub proof fn law_le_u64_roundtrip(v: u64)
    ensures
        u64_from_le(le_bytes_u64(v)) == v,
{
    let lo = (v % 0x1_0000_0000) as u32;
    let hi = (v / 0x1_0000_0000) as u32;
    law_le_u32_roundtrip(lo);
    law_le_u32_roundtrip(hi);
    assert(le_bytes_u64(v).subrange(0, 4) =~= le_bytes_u32(lo));
    assert(le_bytes_u64(v).subrange(4, 8) =~= le_bytes_u32(hi));
}

/// After a successful `mount` of `buf` at `addr`, loading as many bytes
/// from `addr` gives `buf`, and nothing outside the new region changes.
pub proof fn law_mount_then_load(m: Map<u32, u8>, buf: Seq<u8>, addr: u32, other: u32)
    requires
        mount_result(m, buf.len(), addr) == Ok::<(), MemoryError>(()),
    ensures
        load_bytes(mount_state(m, buf, addr), addr, buf.len()) == Ok::<Seq<u8>, MemoryError>(buf),
        !(addr <= other < addr + buf.len()) ==> (mount_state(m, buf, addr).dom().contains(other)
            == m.dom().contains(other)) && (m.dom().contains(other) ==> mount_state(
            m,
            buf,
            addr,
        )[other] == m[other]),
{
    let len = buf.len();
    let n = mount_state(m, buf, addr);
    assert(free_prefix(m, (addr / 0x1000) as int, len / 0x1000) == len / 0x1000);
    assert((len / 0x1000) * 0x1000 == len) by (nonlinear_arith)
        requires
            len % 0x1000 == 0,
    ;
    assert(addr + len <= 0x1_0000_0000) by (nonlinear_arith)
        requires
            addr % 0x1000 == 0,
            len % 0x1000 == 0,
            addr / 0x1000 + len / 0x1000 <= 0x100000,
    ;
    assert forall|k: int| 0 <= k < len implies #[trigger] byte_addr(addr, k) == addr + k by {}
    assert(all_mapped(n, addr, len));
    assert(bytes_at(n, addr, len) =~= buf);
}

/// `free_prefix` counts the free pages before the first taken one: every
/// page it counts is free, and where it stops short of `n` the next page
/// is taken.
pub proof fn law_free_prefix(m: Map<u32, u8>, p: int, n: nat)
    ensures
        free_prefix(m, p, n) <= n,
        forall|q: int| p <= q < p + free_prefix(m, p, n) ==> #[trigger] page_free(m, q),
        free_prefix(m, p, n) < n ==> !page_free(m, p + free_prefix(m, p, n)),
        free_prefix(m, p, n) == n <==> forall|q: int| p <= q < p + n ==> #[trigger] page_free(m, q),
    decreases n,
{
    if n > 0 && page_free(m, p) {
        law_free_prefix(m, p + 1, (n - 1) as nat);
    }
}

/// A page-sized, page-aligned `mount` within the address space succeeds
/// exactly when all its pages are free; otherwise it names the first taken
/// page, and every page before that one is free (and is mapped by the
/// `mount`, see `mount_state`).
pub proof fn law_mount_result(m: Map<u32, u8>, len: nat, addr: u32)
    requires
        len % 0x1000 == 0,
        addr % 0x1000 == 0,
        addr / 0x1000 + len / 0x1000 <= 0x100000,
    ensures
        mount_result(m, len, addr) is Ok <==> forall|q: int|
            addr / 0x1000 <= q < addr / 0x1000 + len / 0x1000 ==> #[trigger] page_free(m, q),
        mount_result(m, len, addr) matches Err(MemoryError::PageAlreadyMapped(q)) ==> {
            &&& addr / 0x1000 <= q < addr / 0x1000 + len / 0x1000
            &&& !page_free(m, q as int)
            &&& forall|j: int| addr / 0x1000 <= j < q ==> #[trigger] page_free(m, j)
        },
{
    let p = (addr / 0x1000) as int;
    law_free_prefix(m, p, len / 0x1000);
}

} // verus!
