use vstd::prelude::*;

use object::read::elf::{ElfFile32, Sym};
use object::{LittleEndian, Object, ObjectSection, ObjectSymbol};
use stable_vec::StableVec;

use super::{ExecError, Interpreter, MachineState, c_string, scan_c_string, string_from_utf8};
use crate::cpu::memory::{
    MemoryError, PAGE_SIZE, le_bytes_u32, store_bytes_result, store_bytes_state, all_mapped,
    is_first_unmapped, byte_addr, lemma_first_unmapped_exists, bytes_at,
};
use crate::instr::Register;
use vstd::string::StringSliceAdditionalSpecFns;
use vstd::utf8::{encode_utf8, valid_utf8, decode_utf8};

verus! {

/// An open file: which file of the hypervisor's table, and the offset of
/// the next byte to read.
#[derive(Debug, Clone, Copy, PartialEq, Eq, Structural)]
pub struct FileDescriptor {
    pub file: usize,
    pub pos: usize,
}

/// The table of open files: a stable vector, whose slots keep their
/// numbers when others are emptied.
#[verifier::external_body]
pub struct FdTable {
    slots: StableVec<FileDescriptor>,
}

/// The descriptors held by a table, by descriptor number.
pub uninterp spec fn fd_entries(t: FdTable) -> Map<usize, FileDescriptor>;

/// The number that the next descriptor pushed onto a table gets: one past
/// the highest slot ever filled.
pub uninterp spec fn fd_next_index(t: FdTable) -> usize;

/// `StableVec::new`: an empty table.
#[verifier::external_body]
fn fds_new() -> (r: FdTable)
    ensures
        fd_entries(r).dom() == Set::<usize>::empty(),
        fd_next_index(r) == 0,
{
    FdTable { slots: StableVec::new() }
}

/// `StableVec::push`: the descriptor goes into slot `next_push_index`,
/// which is returned.
#[verifier::external_body]
fn fds_push(t: &mut FdTable, d: FileDescriptor) -> (r: usize)
    requires
        fd_next_index(*old(t)) <= i32::MAX,
    ensures
        r == fd_next_index(*old(t)),
        fd_entries(*final(t)) == fd_entries(*old(t)).insert(r, d),
        fd_next_index(*final(t)) == r + 1,
    no_unwind
{
    t.slots.push(d)
}

/// `StableVec::next_push_index`: the number the next descriptor gets.
#[verifier::external_body]
fn fds_next(t: &FdTable) -> (r: usize)
    ensures
        r == fd_next_index(*t),
{
    t.slots.next_push_index()
}

/// `StableVec::has_element_at`: whether slot `i` holds a descriptor.
#[verifier::external_body]
fn fds_has(t: &FdTable, i: usize) -> (r: bool)
    ensures
        r == fd_entries(*t).contains_key(i),
{
    t.slots.has_element_at(i)
}

/// `StableVec::get`, copied out: the descriptor in slot `i`, if any.
#[verifier::external_body]
fn fds_get(t: &FdTable, i: usize) -> (r: Option<FileDescriptor>)
    ensures
        r == (if fd_entries(*t).contains_key(i) {
            Some(fd_entries(*t)[i])
        } else {
            None
        }),
{
    t.slots.get(i).copied()
}

/// `StableVec::remove` of a filled slot: the slot is emptied and its
/// descriptor returned.
#[verifier::external_body]
fn fds_remove(t: &mut FdTable, i: usize) -> (r: Option<FileDescriptor>)
    requires
        fd_entries(*old(t)).contains_key(i),
    ensures
        r == Some(fd_entries(*old(t))[i]),
        fd_entries(*final(t)) == fd_entries(*old(t)).remove(i),
        fd_next_index(*final(t)) == fd_next_index(*old(t)),
    no_unwind
{
    t.slots.remove(i)
}

/// Indexing a filled slot mutably: slot `i` now holds `d`.
#[verifier::external_body]
fn fds_set(t: &mut FdTable, i: usize, d: FileDescriptor)
    requires
        fd_entries(*old(t)).contains_key(i),
    ensures
        fd_entries(*final(t)) == fd_entries(*old(t)).insert(i, d),
        fd_next_index(*final(t)) == fd_next_index(*old(t)),
    no_unwind
{
    t.slots[i] = d;
}

} // verus!

verus! {

/// A section of a program image, as the ELF reader gives it.
pub struct ElfSection {
    /// The section's flags (`sh_flags`); `SHF_ALLOC` marks a section that
    /// occupies memory at run time.
    pub flags: u32,
    /// The section's name, or none where it could not be read.
    pub name: Option<String>,
    pub address: u64,
    pub size: u64,
    /// The section's bytes in the file, or none where they could not be read.
    pub data: Option<Vec<u8>>,
}

/// A symbol of a program image: its name's bytes (none where they could not
/// be read) and its address.
pub struct ElfSymbol {
    pub name: Option<Vec<u8>>,
    /// The symbol's type (`STT_*`, the low bits of `st_info`).
    pub kind: u8,
    pub address: u64,
}

/// What the loader reads of a program image.
/// The section flag of a section that occupies memory at run time.
pub const SHF_ALLOC: u32 = 2;

/// The ELF machine number of RISC-V.
pub const EM_RISCV: u16 = 243;

/// The image that the ELF file `bytes` holds, as read by `object`'s
/// `ElfFile32::<LittleEndian>::parse`; none where it cannot be parsed.
pub uninterp spec fn elf_image_of(bytes: Seq<u8>) -> Option<ElfImage>;

/// Parses a little-endian 32-bit ELF file (`object`'s `ElfFile32::parse`)
/// and reads out its machine, its sections (flags, name, address, size and
/// bytes, in file order) and its symbols (name bytes, type and address, in
/// table order).  What it gives is named `elf_image_of(bytes)`.
#[verifier::external_body]
pub fn parse_elf(bytes: &[u8]) -> (r: Option<ElfImage>)
    ensures
        r == elf_image_of(bytes@),
{
    let f = ElfFile32::<LittleEndian>::parse(bytes).ok()?;
    let sections = f.sections().map(|s| ElfSection {
        flags: s.elf_section_header().sh_flags.get(LittleEndian),
        name: s.name().ok().map(String::from),
        address: s.address(),
        size: s.size(),
        data: s.data().ok().map(Vec::from),
    }).collect();
    let symbols = f.symbols().map(|s| ElfSymbol {
        name: s.name_bytes().ok().map(Vec::from),
        kind: s.elf_symbol().st_type(),
        address: s.address(),
    }).collect();
    Some(ElfImage { machine: f.elf_header().e_machine.get(LittleEndian), sections, symbols })
}

pub struct ElfImage {
    /// The machine the image is for (`e_machine`).
    pub machine: u16,
    pub sections: Vec<ElfSection>,
    /// The symbol table, in the file's order.
    pub symbols: Vec<ElfSymbol>,
}

/// Why the hypervisor failed.
#[derive(Debug, Clone, Copy, PartialEq, Eq, Structural)]
pub enum HostError {
    /// An access to the guest failed.
    Exec(ExecError),
    /// No image has been loaded.
    NoImage,
    /// An image has been loaded already.
    ImageAlreadyLoaded,
    /// The bytes are not a little-endian 32-bit ELF image.
    NotAnElf,
    /// The image is not for 32-bit RISC-V.
    NotRiscv32,
    /// The image has no symbol of the name asked for.
    SymbolNotFound,
    /// An address or size does not fit in 32 bits.
    AddressTooLarge,
    /// A section's name or bytes could not be read.
    UnreadableSection,
    /// A section holds more bytes than the address space.
    SectionTooLarge,
    /// The kernel heap is exhausted.
    OutOfKernelMemory,
    /// A field of `__libc` lies past the end of the address space.
    BadLibc,
    /// No more files can be opened.
    TooManyFiles,
    /// The guest hit a breakpoint that nothing handles; holds the pc.
    EbreakReached(u32),
    /// The host clock is set before the Unix epoch.
    ClockBeforeEpoch,
}

/// The hypervisor's state, as its contracts see it.
#[verifier::ext_equal]
pub struct HostState {
    pub image: Option<ElfImage>,
    /// The files that can be opened: path and contents.
    pub files: Seq<(String, Vec<u8>)>,
    pub fds: Map<usize, FileDescriptor>,
    pub next_fd: usize,
    /// Start of the zero-initialised data, and the current program break.
    pub bss: u32,
    pub brk: u32,
    /// Lowest address handed out by `mmap` so far.
    pub mmap_bottom: u32,
    /// End of the kernel heap handed out by `kmalloc` so far.
    pub kmalloc_top: u32,
}

/// Lowest address of the kernel heap.
pub const KMALLOC_BASE: u32 = 0xf000_0000;

/// End of the kernel heap and lowest address that `mmap` hands out.
pub const KMALLOC_LIMIT: u32 = 0xf100_0000;

/// Highest address (exclusive) that `mmap` hands out.
pub const MMAP_BASE: u32 = 0xff00_0000;

/// Size of the thread control block that `__init_libc` sets up.
pub const TCB_SIZE: u32 = 0x70;

/// A Linux-like system interface for guest programs: a kernel heap, a
/// program break, anonymous `mmap` and read-only files.
pub struct LinuxHypervisor {
    image: Option<ElfImage>,
    files: Vec<(String, Vec<u8>)>,
    fds: FdTable,
    bss: u32,
    brk: u32,
    mmap_bottom: u32,
    kmalloc_top: u32,
}

/// `v` rounded up to a multiple of `m` (a power of two), wrapping around
/// 2^32 as unchecked arithmetic does.
pub open spec fn round_up(v: u32, m: u32) -> u32 {
    if v % m == 0 {
        v
    } else {
        ((v + (m - v % m)) % 0x1_0000_0000) as u32
    }
}

/// What `kmalloc(size)` leaves and returns.
pub open spec fn spec_kmalloc(h: HostState, size: u32) -> (HostState, Option<u32>) {
    let new_top = h.kmalloc_top + round_up(size, 4);
    if new_top > KMALLOC_LIMIT {
        (h, None)
    } else {
        (HostState { kmalloc_top: new_top as u32, ..h }, Some(h.kmalloc_top))
    }
}

/// The index of the first symbol named `name`, searching from `i` on.
pub open spec fn first_symbol(syms: Seq<ElfSymbol>, name: Seq<u8>, i: int) -> Option<int>
    decreases syms.len() - i,
{
    if i < 0 || i >= syms.len() {
        None
    } else if syms[i].name matches Some(n) && n@ == name {
        Some(i)
    } else {
        first_symbol(syms, name, i + 1)
    }
}

/// The address of the first symbol named `name` in `img`.
pub open spec fn symbol_address(img: ElfImage, name: Seq<u8>) -> Option<u64> {
    match first_symbol(img.symbols@, name, 0) {
        Some(i) => Some(img.symbols@[i].address),
        None => None,
    }
}

/// What looking up the symbol `name` gives.
pub open spec fn symbol_result(image: Option<ElfImage>, name: Seq<u8>) -> Result<u32, HostError> {
    match image {
        None => Err(HostError::NoImage),
        Some(img) => match symbol_address(img, name) {
            None => Err(HostError::SymbolNotFound),
            Some(a) => if a <= u32::MAX {
                Ok(a as u32)
            } else {
                Err(HostError::AddressTooLarge)
            },
        },
    }
}

/// Whether two byte strings are equal.
pub(crate) fn bytes_eq(a: &[u8], b: &[u8]) -> (r: bool)
    ensures
        r == (a@ == b@),
{
    if a.len() != b.len() {
        return false;
    }
    let mut i: usize = 0;
    while i < a.len()
        invariant
            a@.len() == b@.len(),
            i <= a@.len(),
            forall|j: int| 0 <= j < i ==> a@[j] == b@[j],
        decreases a@.len() - i,
    {
        if a[i] != b[i] {
            return false;
        }
        i += 1;
    }
    assert(a@ =~= b@);
    true
}

/// The address of the first symbol of `img` named `name`.
fn find_symbol(img: &ElfImage, name: &[u8]) -> (r: Option<u64>)
    ensures
        r == symbol_address(*img, name@),
{
    let mut i: usize = 0;
    while i < img.symbols.len()
        invariant
            i <= img.symbols@.len(),
            first_symbol(img.symbols@, name@, 0) == first_symbol(img.symbols@, name@, i as int),
        decreases img.symbols@.len() - i,
    {
        let found = match &img.symbols[i].name {
            Some(n) => bytes_eq(n.as_slice(), name),
            None => false,
        };
        if found {
            return Some(img.symbols[i].address);
        }
        i += 1;
    }
    None
}

/// Converts a 64-bit address or size to 32 bits.
fn narrow(v: u64) -> (r: Result<u32, HostError>)
    ensures
        r == (if v <= u32::MAX {
            Ok::<u32, HostError>(v as u32)
        } else {
            Err(HostError::AddressTooLarge)
        }),
{
    if v <= 0xffff_ffff {
        Ok(v as u32)
    } else {
        Err(HostError::AddressTooLarge)
    }
}

impl LinuxHypervisor {
    pub closed spec fn view(&self) -> HostState {
        HostState {
            image: self.image,
            files: self.files@,
            fds: fd_entries(self.fds),
            next_fd: fd_next_index(self.fds),
            bss: self.bss,
            brk: self.brk,
            mmap_bottom: self.mmap_bottom,
            kmalloc_top: self.kmalloc_top,
        }
    }

    /// The heaps stay in their regions, word- and page-aligned, and every
    /// open file refers to a file of the table, at an offset within it.
    #[verifier::type_invariant]
    spec fn inv(self) -> bool {
        &&& KMALLOC_BASE <= self.kmalloc_top <= KMALLOC_LIMIT
        &&& self.kmalloc_top % 4 == 0
        &&& KMALLOC_LIMIT <= self.mmap_bottom <= MMAP_BASE
        &&& self.mmap_bottom % 0x1000 == 0
        &&& forall|i: usize| #[trigger]
            fd_entries(self.fds).contains_key(i) ==> {
                let d = fd_entries(self.fds)[i];
                &&& i < fd_next_index(self.fds)
                &&& d.file < self.files@.len()
                &&& d.pos <= self.files@[d.file as int].1@.len()
            }
    }

    /// A hypervisor with no image loaded, whose guests can open the given
    /// files (path and contents; the first of equal paths wins).
    pub fn with_files(files: Vec<(String, Vec<u8>)>) -> (r: LinuxHypervisor)
        ensures
            r@ == (HostState {
                image: None,
                files: files@,
                fds: Map::empty(),
                next_fd: 0,
                bss: 0,
                brk: 0,
                mmap_bottom: MMAP_BASE,
                kmalloc_top: KMALLOC_BASE,
            }),
    {
        let fds = fds_new();
        LinuxHypervisor {
            image: None,
            files,
            fds,
            bss: 0,
            brk: 0,
            mmap_bottom: MMAP_BASE,
            kmalloc_top: KMALLOC_BASE,
        }
    }

    /// Allocates `size` bytes, rounded up to a multiple of 4, from the
    /// kernel heap; none once the heap would pass its end.
    pub fn kmalloc(&mut self, size: u32) -> (r: Option<u32>)
        requires
            size <= 0xffff_fffc,
        ensures
            (final(self)@, r) == spec_kmalloc(old(self)@, size),
            r matches Some(a) ==> KMALLOC_BASE <= a && a + round_up(size, 4) <= KMALLOC_LIMIT && a
                % 4 == 0,
    {
        proof {
            use_type_invariant(&*self);
        }
        let size = if size % 4 == 0 {
            size
        } else {
            size + (4 - size % 4)
        };
        let new_top = match self.kmalloc_top.checked_add(size) {
            Some(t) => t,
            None => {
                return None;
            },
        };
        if new_top > KMALLOC_LIMIT {
            None
        } else {
            let addr = self.kmalloc_top;
            self.kmalloc_top = new_top;
            Some(addr)
        }
    }
}

impl Default for LinuxHypervisor {
    /// A hypervisor with no image loaded and no files to open.
    fn default() -> (r: LinuxHypervisor)
        ensures
            r@ == (HostState {
                image: None,
                files: Seq::empty(),
                fds: Map::empty(),
                next_fd: 0,
                bss: 0,
                brk: 0,
                mmap_bottom: MMAP_BASE,
                kmalloc_top: KMALLOC_BASE,
            }),
    {
        let r = LinuxHypervisor::with_files(Vec::new());
        r
    }
}

impl LinuxHypervisor {
    /// The address of the symbol `sym` of the loaded image.
    pub fn symbol(&self, sym: &str) -> (r: Result<u32, HostError>)
        ensures
            r == symbol_result(self@.image, sym.spec_bytes()),
    {
        match &self.image {
            None => Err(HostError::NoImage),
            Some(img) => match find_symbol(img, sym.as_bytes()) {
                None => Err(HostError::SymbolNotFound),
                Some(a) => narrow(a),
            },
        }
    }
}

/// A 32-bit store of `v` at `addr` in the guest, and what it returns.
#[verifier::opaque]
pub open spec fn store_word(s: MachineState, addr: u32, v: u32) -> (MachineState, Result<(), HostError>) {
    (
        MachineState { mem: store_bytes_state(s.mem, addr, le_bytes_u32(v)), ..s },
        match store_bytes_result(s.mem, addr, le_bytes_u32(v)) {
            Ok(()) => Ok(()),
            Err(e) => Err(HostError::Exec(ExecError::Memory(e))),
        },
    )
}

/// What setting up the C library's globals does: the auxiliary vector and
/// the thread control block come from the kernel heap, the page size and
/// the UTF-8 locale are written where the library expects them, and tp
/// points past the control block.
pub open spec fn spec_init_libc(s: MachineState, h: HostState) -> (MachineState, HostState, Result<(), HostError>) {
    match symbol_result(h.image, "__libc".spec_bytes()) {
        Err(e) => (s, h, Err(e)),
        Ok(libc) => {
            let (h1, auxv) = spec_kmalloc(h, 8);
            match auxv {
                None => (s, h1, Err(HostError::OutOfKernelMemory)),
                Some(auxv) => if libc + 8 > u32::MAX {
                    (s, h1, Err(HostError::BadLibc))
                } else {
                    let (s1, r1) = store_word(s, (libc + 8) as u32, auxv);
                    if r1 is Err {
                        (s1, h1, r1)
                    } else if libc + 0x1c > u32::MAX {
                        (s1, h1, Err(HostError::BadLibc))
                    } else {
                        let (s2, r2) = store_word(s1, (libc + 0x1c) as u32, PAGE_SIZE);
                        if r2 is Err {
                            (s2, h1, r2)
                        } else {
                            let (h2, tcb) = spec_kmalloc(h1, TCB_SIZE);
                            match tcb {
                                None => (s2, h2, Err(HostError::OutOfKernelMemory)),
                                Some(t) => {
                                    let tp = (t + TCB_SIZE) as u32;
                                    let s3 = MachineState { x: s2.x.update(4, tp), ..s2 };
                                    match symbol_result(
                                        h2.image,
                                        "__c_dot_utf8_locale".spec_bytes(),
                                    ) {
                                        Err(e) => (s3, h2, Err(e)),
                                        Ok(locale) => {
                                            let (s4, r4) = store_word(
                                                s3,
                                                (tp - 0x18) as u32,
                                                locale,
                                            );
                                            (s4, h2, r4)
                                        },
                                    }
                                },
                            }
                        }
                    }
                },
            }
        },
    }
}

/// Maps a failed guest access to the hypervisor's error.
fn guest(r: Result<(), MemoryError>) -> (out: Result<(), HostError>)
    ensures
        out == (match r {
            Ok(()) => Ok::<(), HostError>(()),
            Err(e) => Err(HostError::Exec(ExecError::Memory(e))),
        }),
{
    match r {
        Ok(()) => Ok(()),
        Err(e) => Err(HostError::Exec(ExecError::Memory(e))),
    }
}

impl LinuxHypervisor {
    /// Sets up the globals of the C library of the loaded image.
    fn init_libc(&mut self, cpu: &mut Interpreter) -> (r: Result<(), HostError>)
        requires
            old(cpu).wf(),
            old(self)@.image is Some,
        ensures
            final(cpu).wf(),
            (final(cpu).state(), final(self)@, r) == spec_init_libc(old(cpu).state(), old(self)@),
    {
        proof {
            use_type_invariant(&*self);
        }
        let libc = self.symbol("__libc")?;
        let auxv_addr = match self.kmalloc(8) {
            Some(a) => a,
            None => {
                return Err(HostError::OutOfKernelMemory);
            },
        };
        let at = match libc.checked_add(8) {
            Some(a) => a,
            None => {
                return Err(HostError::BadLibc);
            },
        };
        store_word_exec(cpu, at, auxv_addr)?;
        let at = match libc.checked_add(0x1c) {
            Some(a) => a,
            None => {
                return Err(HostError::BadLibc);
            },
        };
        store_word_exec(cpu, at, PAGE_SIZE)?;
        let tcb = match self.kmalloc(TCB_SIZE) {
            Some(a) => a,
            None => {
                return Err(HostError::OutOfKernelMemory);
            },
        };
        let tp = tcb + TCB_SIZE;
        cpu.write_x(Register::tp(), tp);
        let utf8_locale = self.symbol("__c_dot_utf8_locale")?;
        store_word_exec(cpu, tp - 0x18, utf8_locale)
    }
}

/// Loading one section, with the data segment starting at `bss` and the
/// program break at `brk`: the `.bss` section sets both, and every other
/// section that occupies memory is copied to its address.  Gives the
/// memory, `bss`, `brk` and the result after it.
pub open spec fn spec_load_section(s: MachineState, bss: u32, brk: u32, sec: ElfSection) -> (MachineState, u32, u32, Result<(), HostError>) {
    if sec.flags & SHF_ALLOC == 0 {
        (s, bss, brk, Ok(()))
    } else {
        match sec.name {
            None => (s, bss, brk, Err(HostError::UnreadableSection)),
            Some(name) => if encode_utf8(name@) == ".bss".spec_bytes() {
                if sec.address > u32::MAX {
                    (s, bss, brk, Err(HostError::AddressTooLarge))
                } else if sec.size > u32::MAX {
                    (s, sec.address as u32, brk, Err(HostError::AddressTooLarge))
                } else {
                    let b = sec.address as u32;
                    (s, b, ((b + sec.size) % 0x1_0000_0000) as u32, Ok(()))
                }
            } else if sec.address > u32::MAX {
                (s, bss, brk, Err(HostError::AddressTooLarge))
            } else {
                match sec.data {
                    None => (s, bss, brk, Err(HostError::UnreadableSection)),
                    Some(d) => if d@.len() >= 0x1_0000_0000 {
                        (s, bss, brk, Err(HostError::SectionTooLarge))
                    } else {
                        let addr = sec.address as u32;
                        (
                            MachineState { mem: store_bytes_state(s.mem, addr, d@), ..s },
                            bss,
                            brk,
                            match store_bytes_result(s.mem, addr, d@) {
                                Ok(()) => Ok(()),
                                Err(e) => Err(HostError::Exec(ExecError::Memory(e))),
                            },
                        )
                    },
                }
            },
        }
    }
}

/// Loading the sections of an image from the `i`-th on, stopping at the
/// first that fails.
pub open spec fn spec_load_sections(s: MachineState, h: HostState, secs: Seq<ElfSection>, i: int) -> (MachineState, HostState, Result<(), HostError>)
    decreases secs.len() - i,
{
    if i < 0 || i >= secs.len() {
        (s, h, Ok(()))
    } else {
        let (t, bss, brk, r) = spec_load_section(s, h.bss, h.brk, secs[i]);
        let g = HostState { bss, brk, ..h };
        if r is Err {
            (t, g, r)
        } else {
            spec_load_sections(t, g, secs, i + 1)
        }
    }
}

/// Loads one section into `cpu`; `bss` and `brk` are the start of the data
/// segment and the program break.
fn load_section(bss: &mut u32, brk: &mut u32, cpu: &mut Interpreter, sec: &ElfSection) -> (r: Result<(), HostError>)
    requires
        old(cpu).wf(),
    ensures
        final(cpu).wf(),
        (final(cpu).state(), *final(bss), *final(brk), r) == spec_load_section(
            old(cpu).state(),
            *old(bss),
            *old(brk),
            *sec,
        ),
{
    if sec.flags & SHF_ALLOC == 0 {
        return Ok(());
    }
    let is_bss = match &sec.name {
        None => {
            return Err(HostError::UnreadableSection);
        },
        Some(name) => bytes_eq(name.as_str().as_bytes(), ".bss".as_bytes()),
    };
    if is_bss {
        let b = narrow(sec.address)?;
        *bss = b;
        let size = narrow(sec.size)?;
        *brk = b.wrapping_add(size);
        Ok(())
    } else {
        let addr = narrow(sec.address)?;
        let data = match &sec.data {
            None => {
                return Err(HostError::UnreadableSection);
            },
            Some(d) => d,
        };
        if data.len() as u64 >= 0x1_0000_0000 {
            return Err(HostError::SectionTooLarge);
        }
        guest(cpu.store_slice(addr, data.as_slice()))
    }
}

/// What loading `obj` does: it must be the first image and for 32-bit
/// RISC-V; gp gets the address of `__global_pointer$`, the sections are
/// loaded and the C library is set up.
pub open spec fn spec_load(s: MachineState, h: HostState, obj: ElfImage) -> (MachineState, HostState, Result<(), HostError>) {
    if h.image is Some {
        (s, h, Err(HostError::ImageAlreadyLoaded))
    } else if obj.machine != EM_RISCV {
        (s, h, Err(HostError::NotRiscv32))
    } else {
        let h1 = HostState { image: Some(obj), ..h };
        match symbol_result(h1.image, "__global_pointer$".spec_bytes()) {
            Err(e) => (s, h1, Err(e)),
            Ok(gp) => {
                let s1 = MachineState { x: s.x.update(3, gp), ..s };
                let (s2, h2, r) = spec_load_sections(s1, h1, obj.sections@, 0);
                if r is Err {
                    (s2, h2, r)
                } else {
                    spec_init_libc(s2, h2)
                }
            },
        }
    }
}

impl LinuxHypervisor {
    /// Loads the program image `obj` into `cpu`'s memory and sets up its C
    /// library.
    pub fn load(&mut self, cpu: &mut Interpreter, obj: ElfImage) -> (r: Result<(), HostError>)
        requires
            old(cpu).wf(),
        ensures
            final(cpu).wf(),
            (final(cpu).state(), final(self)@, r) == spec_load(old(cpu).state(), old(self)@, obj),
    {
        proof {
            use_type_invariant(&*self);
        }
        let ghost s0 = cpu.state();
        let ghost h0 = self@;
        if self.image.is_some() {
            return Err(HostError::ImageAlreadyLoaded);
        }
        if obj.machine != EM_RISCV {
            return Err(HostError::NotRiscv32);
        }
        self.image = Some(obj);
        let gp = self.symbol("__global_pointer$")?;
        cpu.write_x(Register::gp(), gp);
        let ghost s1 = cpu.state();
        let ghost h1 = self@;
        let ghost secs = obj.sections@;
        let ghost target = spec_load_sections(s1, h1, secs, 0);
        assert(spec_load(s0, h0, obj) == (if target.2 is Err {
            target
        } else {
            spec_init_libc(target.0, target.1)
        }));
        let mut i: usize = 0;
        let n = match &self.image {
            Some(img) => img.sections.len(),
            None => 0,
        };
        let mut result: Result<(), HostError> = Ok(());
        while i < n
            invariant_except_break
                cpu.wf(),
                self@.image == Some(obj),
                secs == obj.sections@,
                n == secs.len(),
                i <= n,
                result == Ok::<(), HostError>(()),
                target == spec_load_sections(cpu.state(), self@, secs, i as int),
            ensures
                cpu.wf(),
                self@.image == Some(obj),
                target == (cpu.state(), self@, result),
            decreases n - i,
        {
            let img = match &self.image {
                Some(img) => img,
                None => {
                    break;
                },
            };
            let sec = &img.sections[i];
            proof {
                use_type_invariant(&*self);
            }
            let mut bss = self.bss;
            let mut brk = self.brk;
            let r = load_section(&mut bss, &mut brk, cpu, sec);
            self.bss = bss;
            self.brk = brk;
            if r.is_err() {
                result = r;
                break;
            }
            i += 1;
        }
        if result.is_err() {
            return result;
        }
        self.init_libc(cpu)
    }
}

/// `-EINVAL` as the guest sees it.
pub const EINVAL: u32 = 0xffff_ffea;

/// `-EBADF` as the guest sees it.
pub const EBADF: u32 = 0xffff_fff7;

/// `-ENOMEM` as the guest sees it.
pub const ENOMEM: u32 = 0xffff_fff4;

/// `-ENOENT` as the guest sees it.
pub const ENOENT: u32 = 0xffff_fffe;

/// `AT_FDCWD` (-100) as the guest passes it.
pub const AT_FDCWD: u32 = 0xffff_ff9c;

pub const SYS_OPENAT: u32 = 56;
pub const SYS_CLOSE: u32 = 57;
pub const SYS_READ: u32 = 63;
pub const SYS_RT_SIGPROCMASK: u32 = 135;
pub const SYS_BRK: u32 = 214;
pub const SYS_MUNMAP: u32 = 215;
pub const SYS_MMAP: u32 = 222;
pub const SYS_MADVISE: u32 = 233;
pub const SYS_CLOCK_GETTIME: u32 = 403;

/// How a system call was served.
#[derive(Debug, Clone, Copy, PartialEq, Eq, Structural)]
pub enum Syscall {
    /// The call was carried out and a0 holds its result.
    Handled,
    /// The call (with this number and this first argument) is not known;
    /// a0 holds u32::MAX.
    Unknown(u32, u32),
    /// The call is `clock_gettime`, which needs the host's time: nothing has
    /// been done yet; the host reads its clock and serves the call with
    /// `clock_gettime`.
    Clock,
}

/// `s` with a0 set to `v`.
pub open spec fn set_a0(s: MachineState, v: u32) -> MachineState {
    MachineState { x: s.x.update(10, v), ..s }
}

/// What `brk(req)` returns and makes the program break: a request inside
/// the data region below 0x10000000 moves the break, any other leaves it.
pub open spec fn spec_brk(s: MachineState, h: HostState) -> (MachineState, HostState, Result<Syscall, HostError>) {
    let req = s.x[10];
    let brk = if req >= h.bss && req < 0x1000_0000 {
        req
    } else {
        h.brk
    };
    (set_a0(s, brk), HostState { brk, ..h }, Ok(Syscall::Handled))
}

/// What an `mmap` of `length` bytes with `flags` returns, and where the
/// mapped region then starts: only anonymous, non-fixed mappings are
/// served, from the top of the mmap region downwards, in whole pages.
pub open spec fn spec_mmap(bottom: u32, length: u32, flags: u32) -> (u32, u32) {
    if length == 0 {
        (EINVAL, bottom)
    } else if flags & 0x20 == 0 {
        (EBADF, bottom)
    } else if flags & 0x10 != 0 {
        (ENOMEM, bottom)
    } else {
        let size = round_up(length, PAGE_SIZE);
        let new_bottom: u32 = if size > bottom {
            0
        } else {
            (bottom - size) as u32
        };
        if new_bottom < KMALLOC_LIMIT {
            (ENOMEM, bottom)
        } else {
            (new_bottom, new_bottom)
        }
    }
}

/// The index of the first file whose path is `path`, searching from `i` on.
pub open spec fn find_file(files: Seq<(String, Vec<u8>)>, path: Seq<char>, i: int) -> Option<int>
    decreases files.len() - i,
{
    if i < 0 || i >= files.len() {
        None
    } else if files[i].0@ == path {
        Some(i)
    } else {
        find_file(files, path, i + 1)
    }
}

/// `openat(dirfd, path)`: only paths relative to the working directory, of
/// the files in the table, can be opened; the new descriptor takes the next
/// free number.
pub open spec fn spec_openat(s: MachineState, h: HostState) -> (MachineState, HostState, Result<Syscall, HostError>) {
    match c_string(s.mem, s.x[11]) {
        Err(e) => (s, h, Err(HostError::Exec(e))),
        Ok(path) => if s.x[10] != AT_FDCWD {
            (set_a0(s, EBADF), h, Ok(Syscall::Handled))
        } else {
            match find_file(h.files, path, 0) {
                None => (set_a0(s, ENOENT), h, Ok(Syscall::Handled)),
                Some(i) => if h.next_fd > i32::MAX {
                    (s, h, Err(HostError::TooManyFiles))
                } else {
                    let fd = h.next_fd;
                    (
                        set_a0(s, fd as u32),
                        HostState {
                            fds: h.fds.insert(fd, FileDescriptor { file: i as usize, pos: 0 }),
                            next_fd: (fd + 1) as usize,
                            ..h
                        },
                        Ok(Syscall::Handled),
                    )
                },
            }
        },
    }
}

/// `close(fd)`: an open descriptor is freed, any other number is refused.
pub open spec fn spec_close(s: MachineState, h: HostState) -> (MachineState, HostState, Result<Syscall, HostError>) {
    let fd = s.x[10] as usize;
    if h.fds.contains_key(fd) {
        (set_a0(s, 0), HostState { fds: h.fds.remove(fd), ..h }, Ok(Syscall::Handled))
    } else {
        (set_a0(s, EBADF), h, Ok(Syscall::Handled))
    }
}

/// How many of the bytes of a store of `bs` at `addr` are written: all, or
/// those before the first unmapped address.
pub open spec fn stored_prefix(m: Map<u32, u8>, addr: u32, bs: Seq<u8>) -> nat {
    if all_mapped(m, addr, bs.len()) {
        bs.len()
    } else {
        choose|j: nat| j < bs.len() && is_first_unmapped(m, addr, j)
    }
}

/// `read(fd, buf, count)`: copies the next bytes of an open file to `buf`,
/// as many as are left and `count` allows; the buffer is taken to be empty
/// when it would wrap around the address space.  A store that fails stops
/// the copy, with the descriptor past the bytes written.
pub open spec fn spec_read(s: MachineState, h: HostState) -> (MachineState, HostState, Result<Syscall, HostError>) {
    let fd = s.x[10] as usize;
    let buf = s.x[11];
    let count = s.x[12];
    if !h.fds.contains_key(fd) {
        (set_a0(s, EBADF), h, Ok(Syscall::Handled))
    } else {
        let d = h.fds[fd];
        let data = h.files[d.file as int].1@;
        let span: int = if buf + count < 0x1_0000_0000 {
            count as int
        } else {
            0
        };
        let k: int = if span <= data.len() - d.pos {
            span
        } else {
            data.len() - d.pos
        };
        let bs = data.subrange(d.pos as int, d.pos + k);
        let t = MachineState { mem: store_bytes_state(s.mem, buf, bs), ..s };
        let moved = FileDescriptor { pos: (d.pos + stored_prefix(s.mem, buf, bs)) as usize, ..d };
        let g = HostState { fds: h.fds.insert(fd, moved), ..h };
        match store_bytes_result(s.mem, buf, bs) {
            Ok(()) => (set_a0(t, k as u32), g, Ok(Syscall::Handled)),
            Err(e) => (t, g, Err(HostError::Exec(ExecError::Memory(e)))),
        }
    }
}

/// What a system call does, by its number in a7; `clock_gettime` is handed
/// back to the host, which knows the time.
pub open spec fn spec_ecall(s: MachineState, h: HostState) -> (MachineState, HostState, Result<Syscall, HostError>) {
    let n = s.x[17];
    if n == SYS_CLOCK_GETTIME {
        (s, h, Ok(Syscall::Clock))
    } else if n == SYS_BRK {
        spec_brk(s, h)
    } else if n == SYS_MMAP {
        let (ret, bottom) = spec_mmap(h.mmap_bottom, s.x[11], s.x[13]);
        (set_a0(s, ret), HostState { mmap_bottom: bottom, ..h }, Ok(Syscall::Handled))
    } else if n == SYS_RT_SIGPROCMASK || n == SYS_MUNMAP || n == SYS_MADVISE {
        (set_a0(s, 0), h, Ok(Syscall::Handled))
    } else if n == SYS_OPENAT {
        spec_openat(s, h)
    } else if n == SYS_CLOSE {
        spec_close(s, h)
    } else if n == SYS_READ {
        spec_read(s, h)
    } else {
        (set_a0(s, u32::MAX), h, Ok(Syscall::Unknown(n, s.x[10])))
    }
}

/// A store that happens only if `p`, the store before it, succeeded.
pub open spec fn and_store(p: (MachineState, Result<(), HostError>), addr: u32, v: u32) -> (MachineState, Result<(), HostError>) {
    if p.1 is Err {
        p
    } else {
        store_word(p.0, addr, v)
    }
}

/// `clock_gettime(clock, ts)` at time `now` (seconds and nanoseconds since
/// the Unix epoch, none before it): the 64-bit seconds and the nanoseconds
/// are written as the guest's `struct timespec` at `ts`.
pub open spec fn spec_clock_gettime(s: MachineState, now: Option<(u64, u32)>) -> (MachineState, Result<Syscall, HostError>) {
    match now {
        None => (s, Err(HostError::ClockBeforeEpoch)),
        Some((secs, nanos)) => {
            let ts = s.x[11];
            let p = and_store(
                and_store(
                    and_store(
                        store_word(s, ts, (secs % 0x1_0000_0000) as u32),
                        ((ts + 4) % 0x1_0000_0000) as u32,
                        (secs / 0x1_0000_0000) as u32,
                    ),
                    ((ts + 8) % 0x1_0000_0000) as u32,
                    nanos,
                ),
                ((ts + 12) % 0x1_0000_0000) as u32,
                0,
            );
            if p.1 is Err {
                (p.0, Err(p.1->Err_0))
            } else {
                (set_a0(p.0, 0), Ok(Syscall::Handled))
            }
        },
    }
}

/// A 32-bit store into the guest, with the hypervisor's error.
fn store_word_exec(cpu: &mut Interpreter, addr: u32, v: u32) -> (r: Result<(), HostError>)
    requires
        old(cpu).wf(),
    ensures
        final(cpu).wf(),
        (final(cpu).state(), r) == store_word(old(cpu).state(), addr, v),
{
    proof {
        reveal(store_word);
    }
    guest(cpu.store_u32(addr, v))
}

/// Serves `clock_gettime` with the time `now` (see `spec_clock_gettime`).
pub fn clock_gettime(cpu: &mut Interpreter, now: Option<(u64, u32)>) -> (r: Result<Syscall, HostError>)
    requires
        old(cpu).wf(),
    ensures
        final(cpu).wf(),
        (final(cpu).state(), r) == spec_clock_gettime(old(cpu).state(), now),
{
    let (secs, nanos) = match now {
        Some(t) => t,
        None => {
            return Err(HostError::ClockBeforeEpoch);
        },
    };
    let ts = cpu.read_x(Register::a1());
    assert(secs as u32 == (secs % 0x1_0000_0000) as u32) by (bit_vector);
    assert((secs >> 32) as u32 == (secs / 0x1_0000_0000) as u32) by (bit_vector);
    let ghost s0 = cpu.state();
    let r1 = store_word_exec(cpu, ts, secs as u32);
    let ghost p1 = store_word(s0, ts, (secs % 0x1_0000_0000) as u32);
    if let Err(e) = r1 {
        return Err(e);
    }
    let ghost c1 = cpu.state();
    let r2 = store_word_exec(cpu, ts.wrapping_add(4), (secs >> 32) as u32);
    let ghost p2 = and_store(p1, ((ts + 4) % 0x1_0000_0000) as u32, (secs / 0x1_0000_0000) as u32);
    assert(p2 == (cpu.state(), r2));
    if let Err(e) = r2 {
        return Err(e);
    }
    let r3 = store_word_exec(cpu, ts.wrapping_add(8), nanos);
    let ghost p3 = and_store(p2, ((ts + 8) % 0x1_0000_0000) as u32, nanos);
    assert(p3 == (cpu.state(), r3));
    if let Err(e) = r3 {
        return Err(e);
    }
    let r4 = store_word_exec(cpu, ts.wrapping_add(12), 0);
    let ghost p4 = and_store(p3, ((ts + 12) % 0x1_0000_0000) as u32, 0);
    assert(p4 == (cpu.state(), r4));
    if let Err(e) = r4 {
        return Err(e);
    }
    cpu.write_x(Register::a0(), 0);
    Ok(Syscall::Handled)
}

/// Writes `bytes` from `buf` on, which must not wrap around the address
/// space; gives what the store returns and how many bytes it wrote.
fn copy_to_guest(cpu: &mut Interpreter, buf: u32, bytes: &[u8]) -> (r: (Result<(), MemoryError>, usize))
    requires
        old(cpu).wf(),
        buf + bytes@.len() < 0x1_0000_0000,
    ensures
        final(cpu).wf(),
        r.0 == store_bytes_result(old(cpu).state().mem, buf, bytes@),
        final(cpu).state() == (MachineState {
            mem: store_bytes_state(old(cpu).state().mem, buf, bytes@),
            ..old(cpu).state()
        }),
        r.1 == stored_prefix(old(cpu).state().mem, buf, bytes@),
        r.1 <= bytes@.len(),
{
    let ghost m = cpu.state().mem;
    let stored = cpu.store_slice(buf, bytes);
    let n: usize = match stored {
        Ok(()) => bytes.len(),
        Err(MemoryError::OutOfBoundsStore(a)) => {
            proof {
                lemma_first_unmapped_exists(m, buf, bytes@.len());
                let j = choose|j: nat| j < bytes@.len() && is_first_unmapped(m, buf, j);
                assert(a == byte_addr(buf, j as int));
            }
            (a - buf) as usize
        },
        Err(_) => 0,
    };
    (stored, n)
}

impl LinuxHypervisor {
    fn sys_brk(&mut self, cpu: &mut Interpreter) -> (r: Result<Syscall, HostError>)
        requires
            old(cpu).wf(),
        ensures
            final(cpu).wf(),
            (final(cpu).state(), final(self)@, r) == spec_brk(old(cpu).state(), old(self)@),
    {
        proof {
            use_type_invariant(&*self);
        }
        let req = cpu.read_x(Register::a0());
        if req >= self.bss && req < 0x1000_0000 {
            self.brk = req;
        }
        cpu.write_x(Register::a0(), self.brk);
        Ok(Syscall::Handled)
    }

    fn sys_mmap(&mut self, cpu: &mut Interpreter) -> (r: Result<Syscall, HostError>)
        requires
            old(cpu).wf(),
        ensures
            final(cpu).wf(),
            ({
                let (ret, bottom) = spec_mmap(
                    old(self)@.mmap_bottom,
                    old(cpu).state().x[11],
                    old(cpu).state().x[13],
                );
                &&& final(cpu).state() == set_a0(old(cpu).state(), ret)
                &&& final(self)@ == (HostState { mmap_bottom: bottom, ..old(self)@ })
                &&& r == Ok::<Syscall, HostError>(Syscall::Handled)
            }),
    {
        proof {
            use_type_invariant(&*self);
        }
        let length = cpu.read_x(Register::a1());
        let flags = cpu.read_x(Register::a3());
        let ret = if length == 0 {
            EINVAL
        } else if flags & 0x20 == 0 {
            EBADF
        } else if flags & 0x10 != 0 {
            ENOMEM
        } else {
            let size = if length % PAGE_SIZE == 0 {
                length
            } else {
                length.wrapping_add(PAGE_SIZE - length % PAGE_SIZE)
            };
            let new_bottom = self.mmap_bottom.saturating_sub(size);
            if new_bottom < KMALLOC_LIMIT {
                ENOMEM
            } else {
                assert(new_bottom % 0x1000 == 0) by {
                    assert(size % 0x1000 == 0) by {
                        if length % 0x1000 != 0 {
                            assert(((length + (0x1000 - length % 0x1000)) % 0x1_0000_0000) % 0x1000
                                == 0) by (nonlinear_arith);
                        }
                    }
                }
                self.mmap_bottom = new_bottom;
                new_bottom
            }
        };
        cpu.write_x(Register::a0(), ret);
        Ok(Syscall::Handled)
    }

    /// The index of the first file of the table whose path is `path`.
    fn find_file(&self, path: &String) -> (r: Option<usize>)
        ensures
            match find_file(self@.files, path@, 0) {
                Some(i) => r == Some(i as usize),
                None => r is None,
            },
            r matches Some(i) ==> i < self@.files.len(),
    {
        let mut i: usize = 0;
        while i < self.files.len()
            invariant
                i <= self.files@.len(),
                find_file(self@.files, path@, 0) == find_file(self@.files, path@, i as int),
            decreases self.files@.len() - i,
        {
            if self.files[i].0 == *path {
                return Some(i);
            }
            i += 1;
        }
        None
    }

    fn sys_openat(&mut self, cpu: &mut Interpreter) -> (r: Result<Syscall, HostError>)
        requires
            old(cpu).wf(),
        ensures
            final(cpu).wf(),
            (final(cpu).state(), final(self)@, r) == spec_openat(old(cpu).state(), old(self)@),
    {
        proof {
            use_type_invariant(&*self);
        }
        let dirfd = cpu.read_x(Register::a0());
        let path = match cpu.load_string(cpu.read_x(Register::a1())) {
            Ok(p) => p,
            Err(e) => {
                return Err(HostError::Exec(e));
            },
        };
        let ret = if dirfd != AT_FDCWD {
            EBADF
        } else {
            match self.find_file(&path) {
                None => ENOENT,
                Some(i) => {
                    if fds_next(&self.fds) > 0x7fff_ffff {
                        return Err(HostError::TooManyFiles);
                    }
                    let fd = fds_push(&mut self.fds, FileDescriptor { file: i, pos: 0 });
                    fd as u32
                },
            }
        };
        cpu.write_x(Register::a0(), ret);
        Ok(Syscall::Handled)
    }

    fn sys_close(&mut self, cpu: &mut Interpreter) -> (r: Result<Syscall, HostError>)
        requires
            old(cpu).wf(),
        ensures
            final(cpu).wf(),
            (final(cpu).state(), final(self)@, r) == spec_close(old(cpu).state(), old(self)@),
    {
        proof {
            use_type_invariant(&*self);
        }
        let fd = cpu.read_x(Register::a0()) as usize;
        let res = if fds_has(&self.fds, fd) {
            fds_remove(&mut self.fds, fd);
            0
        } else {
            EBADF
        };
        cpu.write_x(Register::a0(), res);
        Ok(Syscall::Handled)
    }

    fn sys_read(&mut self, cpu: &mut Interpreter) -> (r: Result<Syscall, HostError>)
        requires
            old(cpu).wf(),
        ensures
            final(cpu).wf(),
            (final(cpu).state(), final(self)@, r) == spec_read(old(cpu).state(), old(self)@),
    {
        proof {
            use_type_invariant(&*self);
        }
        let fd = cpu.read_x(Register::a0()) as usize;
        let buf = cpu.read_x(Register::a1());
        let count = cpu.read_x(Register::a2());
        let d = match fds_get(&self.fds, fd) {
            Some(d) => d,
            None => {
                cpu.write_x(Register::a0(), EBADF);
                return Ok(Syscall::Handled);
            },
        };
        let data = self.files[d.file].1.as_slice();
        let span: usize = if buf as u64 + count as u64 <= 0xffff_ffff {
            count as usize
        } else {
            0
        };
        let left = data.len() - d.pos;
        let k = if span <= left {
            span
        } else {
            left
        };
        let bytes = vstd::slice::slice_subrange(data, d.pos, d.pos + k);
        let (stored, n) = copy_to_guest(cpu, buf, bytes);
        fds_set(&mut self.fds, fd, FileDescriptor { pos: d.pos + n, ..d });
        match stored {
            Ok(()) => {
                cpu.write_x(Register::a0(), k as u32);
                Ok(Syscall::Handled)
            },
            Err(e) => Err(HostError::Exec(ExecError::Memory(e))),
        }
    }

    /// Serves the system call whose number is in a7 (see `spec_ecall`);
    /// `clock_gettime` is answered with `Syscall::Clock`, for the host to
    /// serve with its time through `clock_gettime`.
    pub fn ecall(&mut self, cpu: &mut Interpreter) -> (r: Result<Syscall, HostError>)
        requires
            old(cpu).wf(),
        ensures
            final(cpu).wf(),
            (final(cpu).state(), final(self)@, r) == spec_ecall(old(cpu).state(), old(self)@),
    {
        let n = cpu.read_x(Register::a7());
        if n == SYS_CLOCK_GETTIME {
            Ok(Syscall::Clock)
        } else if n == SYS_BRK {
            self.sys_brk(cpu)
        } else if n == SYS_MMAP {
            self.sys_mmap(cpu)
        } else if n == SYS_RT_SIGPROCMASK || n == SYS_MUNMAP || n == SYS_MADVISE {
            cpu.write_x(Register::a0(), 0);
            Ok(Syscall::Handled)
        } else if n == SYS_OPENAT {
            self.sys_openat(cpu)
        } else if n == SYS_CLOSE {
            self.sys_close(cpu)
        } else if n == SYS_READ {
            self.sys_read(cpu)
        } else {
            let a0 = cpu.read_x(Register::a0());
            cpu.write_x(Register::a0(), u32::MAX);
            Ok(Syscall::Unknown(n, a0))
        }
    }
}

impl<'arena> Interpreter<'arena> {
    /// Loads the program image `elf` through the hypervisor `h` (see
    /// `LinuxHypervisor::load`).
    pub fn load(&mut self, h: &mut LinuxHypervisor, elf: ElfImage) -> (r: Result<(), HostError>)
        requires
            old(self).wf(),
        ensures
            final(self).wf(),
            (final(self).state(), final(h)@, r) == spec_load(old(self).state(), old(h)@, elf),
    {
        h.load(self, elf)
    }

    /// Parses the ELF file `bytes` and loads the image it holds through
    /// `h`; bytes that are no ELF file leave everything as it was.
    pub fn load_elf(&mut self, h: &mut LinuxHypervisor, bytes: &[u8]) -> (r: Result<(), HostError>)
        requires
            old(self).wf(),
        ensures
            final(self).wf(),
            match elf_image_of(bytes@) {
                None => r == Err::<(), HostError>(HostError::NotAnElf) && final(self).state() == old(self).state()
                    && final(h)@ == old(h)@,
                Some(img) => (final(self).state(), final(h)@, r) == spec_load(old(self).state(), old(h)@, img),
            },
    {
        match parse_elf(bytes) {
            None => Err(HostError::NotAnElf),
            Some(img) => self.load(h, img),
        }
    }
}

/// Address after the breakpoint of the guest's log callback.
pub const LOG_CALLBACK: u32 = 0xe000_0002;

/// Address after the breakpoint of the guest's frame-time callback.
pub const FRAMETIME_CALLBACK: u32 = 0xe000_0006;

/// What a breakpoint asks the host to do.
#[derive(Debug)]
pub enum Breakpoint {
    /// Print this log message.
    Log(String),
    /// Report the frame time, a double with these bits.
    Frametime(u64),
}

/// The bytes of the NUL-terminated string at `addr`.
pub open spec fn c_bytes(m: Map<u32, u8>, addr: u32) -> Result<Seq<u8>, ExecError> {
    match scan_c_string(m, addr, 0) {
        Ok(n) => Ok(bytes_at(m, addr, n)),
        Err(e) => Err(e),
    }
}

/// Where the first `%s` of `bs` starts, searching from `i` on.
pub open spec fn find_format(bs: Seq<u8>, i: int) -> Option<int>
    decreases bs.len() - i,
{
    if i < 0 || i + 1 >= bs.len() {
        None
    } else if bs[i] == 0x25 && bs[i + 1] == 0x73 {
        Some(i)
    } else {
        find_format(bs, i + 1)
    }
}

/// The bytes of the log message: the UTF-8 string at `fmt`, with its first
/// `%s` replaced by the UTF-8 string at `arg` (read only when needed).
pub open spec fn log_message(m: Map<u32, u8>, fmt: u32, arg: u32) -> Result<Seq<u8>, ExecError> {
    match c_bytes(m, fmt) {
        Err(e) => Err(e),
        Ok(msg) => if !valid_utf8(msg) {
            Err(ExecError::InvalidUtf8)
        } else {
            match find_format(msg, 0) {
                None => Ok(msg),
                Some(k) => match c_bytes(m, arg) {
                    Err(e) => Err(e),
                    Ok(a) => if !valid_utf8(a) {
                        Err(ExecError::InvalidUtf8)
                    } else {
                        Ok(msg.take(k) + a + msg.skip(k + 2))
                    },
                },
            }
        },
    }
}

/// Where the first `%s` of `bs` starts.
fn find_format_exec(bs: &Vec<u8>) -> (r: Option<usize>)
    ensures
        r matches Some(k) ==> find_format(bs@, 0) == Some(k as int) && k + 2 <= bs@.len(),
        r is None ==> find_format(bs@, 0) is None,
{
    if bs.len() < 2 {
        return None;
    }
    let mut i: usize = 0;
    while i < bs.len() - 1
        invariant
            bs@.len() >= 2,
            find_format(bs@, 0) == find_format(bs@, i as int),
        decreases bs@.len() - i,
    {
        if bs[i] == 0x25 && bs[i + 1] == 0x73 {
            return Some(i);
        }
        i += 1;
    }
    None
}

/// `msg` with the two bytes at `k` replaced by `arg`.
fn splice(msg: &Vec<u8>, k: usize, arg: &Vec<u8>) -> (r: Vec<u8>)
    requires
        k + 2 <= msg@.len(),
    ensures
        r@ == msg@.take(k as int) + arg@ + msg@.skip(k + 2),
{
    let mut out: Vec<u8> = Vec::new();
    let mut i: usize = 0;
    while i < k
        invariant
            i <= k,
            k + 2 <= msg@.len(),
            out@ == msg@.take(i as int),
        decreases k - i,
    {
        out.push(msg[i]);
        assert(out@ =~= msg@.take(i + 1));
        i += 1;
    }
    let mut j: usize = 0;
    while j < arg.len()
        invariant
            j <= arg@.len(),
            out@ == msg@.take(k as int) + arg@.take(j as int),
        decreases arg@.len() - j,
    {
        out.push(arg[j]);
        assert(out@ =~= msg@.take(k as int) + arg@.take(j + 1));
        j += 1;
    }
    let n = msg.len();
    let mut i: usize = k + 2;
    while i < n
        invariant
            k + 2 <= i <= msg@.len(),
            n == msg@.len(),
            out@ == msg@.take(k as int) + arg@ + msg@.subrange(k + 2, i as int),
        decreases msg@.len() - i,
    {
        out.push(msg[i]);
        assert(out@ =~= msg@.take(k as int) + arg@ + msg@.subrange(k + 2, i + 1));
        i += 1;
    }
    assert(arg@.take(arg@.len() as int) =~= arg@);
    assert(msg@.subrange(k + 2, msg@.len() as int) =~= msg@.skip(k + 2));
    out
}

/// Whether `bs` is valid UTF-8 (`str::from_utf8` succeeds on it).
#[verifier::external_body]
pub(crate) fn is_utf8(bs: &[u8]) -> (r: bool)
    ensures
        r == valid_utf8(bs@),
{
    std::str::from_utf8(bs).is_ok()
}

impl LinuxHypervisor {
    /// Serves a breakpoint: the guest's callbacks for logging and for the
    /// frame time are recognised by the pc after the breakpoint; any other
    /// breakpoint is an error.
    pub fn ebreak(&self, cpu: &Interpreter) -> (r: Result<Breakpoint, HostError>)
        requires
            cpu.wf(),
        ensures
            ({
                let s = cpu.state();
                if s.pc == LOG_CALLBACK {
                    match log_message(s.mem, s.x[11], s.x[12]) {
                        Ok(bs) => if valid_utf8(bs) {
                            r matches Ok(Breakpoint::Log(t)) && t@ == decode_utf8(bs)
                        } else {
                            r == Err::<Breakpoint, HostError>(HostError::Exec(ExecError::InvalidUtf8))
                        },
                        Err(e) => r == Err::<Breakpoint, HostError>(HostError::Exec(e)),
                    }
                } else if s.pc == FRAMETIME_CALLBACK {
                    r matches Ok(Breakpoint::Frametime(b)) && b == s.f[10].bits
                } else {
                    r == Err::<Breakpoint, HostError>(HostError::EbreakReached(s.pc))
                }
            }),
    {
        let pc = cpu.pc;
        if pc == LOG_CALLBACK {
            let msg = match cpu.load_c_bytes(cpu.read_x(Register::a1())) {
                Ok(m) => m,
                Err(e) => {
                    return Err(HostError::Exec(e));
                },
            };
            if !is_utf8(msg.as_slice()) {
                return Err(HostError::Exec(ExecError::InvalidUtf8));
            }
            let full = match find_format_exec(&msg) {
                None => msg,
                Some(k) => {
                    let arg = match cpu.load_c_bytes(cpu.read_x(Register::a2())) {
                        Ok(a) => a,
                        Err(e) => {
                            return Err(HostError::Exec(e));
                        },
                    };
                    if !is_utf8(arg.as_slice()) {
                        return Err(HostError::Exec(ExecError::InvalidUtf8));
                    }
                    splice(&msg, k, &arg)
                },
            };
            match string_from_utf8(full) {
                Some(t) => Ok(Breakpoint::Log(t)),
                None => Err(HostError::Exec(ExecError::InvalidUtf8)),
            }
        } else if pc == FRAMETIME_CALLBACK {
            Ok(Breakpoint::Frametime(cpu.read_f(Register::a0()).bits))
        } else {
            Err(HostError::EbreakReached(pc))
        }
    }
}

/// Two allocations from the kernel heap, one after the other, do not
/// overlap: the second starts where the first ends or later.
pub proof fn law_kmalloc_disjoint(h: HostState, a: u32, b: u32)
    requires
        a <= 0xffff_fffc,
        b <= 0xffff_fffc,
        spec_kmalloc(h, a).1 is Some,
        spec_kmalloc(spec_kmalloc(h, a).0, b).1 is Some,
    ensures
        spec_kmalloc(h, a).1->Some_0 + round_up(a, 4) <= spec_kmalloc(spec_kmalloc(h, a).0, b).1->Some_0,
{
}

/// A served `mmap` hands out whole pages just below the previous region,
/// above the kernel heap; a refused one leaves the region where it was.
pub proof fn law_mmap_region(bottom: u32, length: u32, flags: u32)
    requires
        KMALLOC_LIMIT <= bottom <= MMAP_BASE,
        bottom % PAGE_SIZE == 0,
    ensures
        ({
            let (ret, new_bottom) = spec_mmap(bottom, length, flags);
            &&& KMALLOC_LIMIT <= new_bottom <= bottom
            &&& new_bottom % PAGE_SIZE == 0
            &&& new_bottom != bottom ==> ret == new_bottom && new_bottom + round_up(length, PAGE_SIZE)
                == bottom
            &&& ret == bottom ==> new_bottom == bottom
        }),
{
    let size = round_up(length, PAGE_SIZE);
    if length % 0x1000 != 0 {
        assert(((length + (0x1000 - length % 0x1000)) % 0x1_0000_0000) % 0x1000 == 0)
            by (nonlinear_arith);
    }
}

/// Closing the descriptor that a successful `openat` returned succeeds and
/// leaves the table of open files as it was before the `openat`.
pub proof fn law_close_after_open(s: MachineState, h: HostState)
    requires
        s.x.len() == 32,
        forall|i: usize| #[trigger] h.fds.contains_key(i) ==> i < h.next_fd,
        spec_openat(s, h).2 == Ok::<Syscall, HostError>(Syscall::Handled),
        spec_openat(s, h).1.next_fd == h.next_fd + 1,
    ensures
        ({
            let (s1, h1, _) = spec_openat(s, h);
            let (s2, h2, r2) = spec_close(s1, h1);
            &&& r2 == Ok::<Syscall, HostError>(Syscall::Handled)
            &&& s2.x[10] == 0
            &&& h2.fds == h.fds
        }),
{
    let (s1, h1, _) = spec_openat(s, h);
    let fd = h.next_fd;
    assert(s1.x[10] == fd as u32);
    assert((fd as u32) as usize == fd);
    assert(!h.fds.contains_key(fd));
    assert(h1.fds.remove(fd) =~= h.fds);
}

} // verus!
