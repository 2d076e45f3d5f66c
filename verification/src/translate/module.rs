use vstd::prelude::*;

use super::TranslateError;
use super::blocks::Block;
use super::epilogue::{index_of, find_index};
use crate::interpreter::linux::{ElfImage, ElfSection, ElfSymbol, is_utf8, bytes_eq};
use vstd::string::StringSliceAdditionalSpecFns;
use vstd::utf8::{valid_utf8, encode_utf8};

verus! {

/// The address where the runtime expects the first block of code.
pub const FIRST_BLOCK: u32 = 0x60_0000;

/// The function index of the start function; indices of imports come
/// before it, and the next two are the trap and return functions.
pub const START_FUNCTION: u32 = 2;

/// The function that table entries of addresses where no block starts
/// point to: it traps.
pub const TRAP_FUNCTION: u32 = 3;

/// How the translated module is laid out: the function index of each
/// block, by address, and the function table indexed by half the distance
/// from the first block.
pub struct ModuleLayout {
    pub indices: Vec<(u32, u32)>,
    pub table: Vec<u32>,
}

/// The function index of the `i`-th block: after the imports, the start
/// function and the two functions shared by all blocks.
pub open spec fn function_index(i: int, n_imports: u32) -> u32 {
    (i + n_imports + 3) as u32
}

/// The table slot of the block at `addr`.
pub open spec fn slot(addr: u32, first: u32) -> int {
    (addr - first) / 2
}

/// Whether block addresses increase and are all even.
pub open spec fn ordered_even(blocks: Seq<(u32, Block)>) -> bool {
    &&& forall|i: int, j: int| 0 <= i < j < blocks.len() ==> blocks[i].0 < blocks[j].0
    &&& forall|i: int| 0 <= i < blocks.len() ==> #[trigger] blocks[i].0 % 2 == 0
}

/// Lays out the module for `blocks`: block `i` becomes function
/// `i + n_imports + 3`; the table spans the first to the last block in
/// steps of two bytes, each block's slot holding its function and every
/// other slot the trapping function.  The first block must be at
/// `FIRST_BLOCK`.
pub fn module_layout(blocks: &[(u32, Block)], n_imports: u32) -> (r: Result<ModuleLayout, TranslateError>)
    requires
        ordered_even(blocks@),
        blocks@.len() + n_imports + 3 <= u32::MAX,
    ensures
        blocks@.len() == 0 ==> r == Err::<ModuleLayout, TranslateError>(TranslateError::NoBlocks),
        blocks@.len() > 0 && blocks@[0].0 != FIRST_BLOCK ==> r == Err::<ModuleLayout, TranslateError>(
            TranslateError::MisplacedCode(blocks@[0].0),
        ),
        blocks@.len() > 0 && blocks@[0].0 == FIRST_BLOCK ==> (r matches Ok(l) && {
            let first = blocks@[0].0;
            let last = blocks@[blocks@.len() - 1].0;
            &&& l.indices@.len() == blocks@.len()
            &&& forall|i: int| 0 <= i < blocks@.len() ==> #[trigger] l.indices@[i] == (blocks@[i].0, function_index(i, n_imports))
            &&& l.table@.len() == last / 2 - first / 2 + 1
            &&& forall|i: int| 0 <= i < blocks@.len() ==> l.table@[slot(#[trigger] blocks@[i].0, first)] == function_index(i, n_imports)
            &&& forall|j: int| 0 <= j < l.table@.len() && (forall|i: int| 0 <= i < blocks@.len() ==> slot(#[trigger] blocks@[i].0, first) != j)
                ==> l.table@[j] == TRAP_FUNCTION
        }),
{
    if blocks.len() == 0 {
        return Err(TranslateError::NoBlocks);
    }
    let first = blocks[0].0;
    if first != FIRST_BLOCK {
        return Err(TranslateError::MisplacedCode(first));
    }
    let last = blocks[blocks.len() - 1].0;
    proof {
        if blocks@.len() > 1 {
            assert(blocks@[0].0 < blocks@[blocks@.len() - 1].0);
        }
        assert(blocks@[blocks@.len() - 1].0 % 2 == 0);
    }
    proof {
        assert(last >> 1 == last / 2) by (bit_vector);
        assert(first >> 1 == first / 2) by (bit_vector);
    }
    let size: u32 = (last >> 1) - (first >> 1) + 1;
    let mut indices: Vec<(u32, u32)> = Vec::new();
    let mut i: usize = 0;
    while i < blocks.len()
        invariant
            i <= blocks@.len(),
            blocks@.len() + n_imports + 3 <= u32::MAX,
            indices@.len() == i,
            forall|k: int| 0 <= k < i ==> #[trigger] indices@[k] == (blocks@[k].0, function_index(k, n_imports)),
        decreases blocks@.len() - i,
    {
        indices.push((blocks[i].0, i as u32 + n_imports + 3));
        i += 1;
    }
    let mut table: Vec<u32> = Vec::new();
    let mut j: u32 = 0;
    while j < size
        invariant
            j <= size,
            table@.len() == j,
            forall|k: int| 0 <= k < j ==> table@[k] == TRAP_FUNCTION,
        decreases size - j,
    {
        table.push(TRAP_FUNCTION);
        j += 1;
    }
    let mut i: usize = 0;
    while i < blocks.len()
        invariant
            i <= blocks@.len(),
            ordered_even(blocks@),
            first == blocks@[0].0,
            first == FIRST_BLOCK,
            last == blocks@[blocks@.len() - 1].0,
            blocks@.len() + n_imports + 3 <= u32::MAX,
            table@.len() == last / 2 - first / 2 + 1,
            forall|k: int| 0 <= k < i ==> table@[slot(#[trigger] blocks@[k].0, first)] == function_index(k, n_imports),
            forall|t: int| 0 <= t < table@.len() && (forall|k: int| 0 <= k < i ==> slot(#[trigger] blocks@[k].0, first) != t)
                ==> table@[t] == TRAP_FUNCTION,
        decreases blocks@.len() - i,
    {
        let addr = blocks[i].0;
        proof {
            if i > 0 {
                assert(blocks@[0].0 < blocks@[i as int].0);
            }
            if (i as int) < blocks@.len() - 1 {
                assert(blocks@[i as int].0 < blocks@[blocks@.len() - 1].0);
            }
            assert(blocks@[i as int].0 % 2 == 0);
            assert forall|k: int| 0 <= k < i implies slot(#[trigger] blocks@[k].0, first) != slot(addr, first) by {
                assert(blocks@[k].0 < blocks@[i as int].0);
                assert(blocks@[k].0 % 2 == 0);
                if k > 0 {
                    assert(blocks@[0].0 < blocks@[k].0);
                }
            }
        }
        let s: usize = ((addr - first) / 2) as usize;
        table.set(s, i as u32 + n_imports + 3);
        i += 1;
    }
    Ok(ModuleLayout { indices, table })
}

/// The symbol type of a function.
pub const STT_FUNC: u8 = 2;

/// The symbol type of an indirect function, also code.
pub const STT_GNU_IFUNC: u8 = 10;

/// What an exported name stands for: a block's function, or an immutable
/// global, the `index`-th, holding an address.
#[derive(Debug, Clone, Copy, PartialEq, Eq, Structural)]
pub enum ExportTarget {
    Func(u32),
    Global { index: u32, value: u32 },
}

/// An export of the module.
#[derive(Debug)]
pub struct Export {
    pub name: Vec<u8>,
    pub target: ExportTarget,
}

/// Whether a symbol names code.
pub open spec fn is_function(s: ElfSymbol) -> bool {
    s.kind == STT_FUNC || s.kind == STT_GNU_IFUNC
}

/// How many of `es` export globals.
pub open spec fn n_globals(es: Seq<(Seq<u8>, ExportTarget)>) -> nat
    decreases es.len(),
{
    if es.len() == 0 {
        0
    } else {
        n_globals(es.drop_last()) + if es.last().1 is Global { 1nat } else { 0nat }
    }
}

/// Whether `name` is exported by `es` already.
pub open spec fn exported(es: Seq<(Seq<u8>, ExportTarget)>, name: Seq<u8>) -> bool {
    exists|k: int| 0 <= k < es.len() && (#[trigger] es[k]).0 == name
}

/// The exports after symbol `s`, given those before it: a symbol whose
/// name cannot be read fails; an empty name, or one exported already, is
/// skipped (the first symbol of a name wins); a function is exported as
/// the block that starts at its address, which must exist; any other
/// symbol becomes the next global, holding its address.
pub open spec fn export_step(es: Seq<(Seq<u8>, ExportTarget)>, s: ElfSymbol, indices: Seq<(u32, u32)>) -> Result<
    Seq<(Seq<u8>, ExportTarget)>,
    TranslateError,
> {
    match s.name {
        None => Err(TranslateError::BadSymbolName),
        Some(n) => if !valid_utf8(n@) {
            Err(TranslateError::BadSymbolName)
        } else if n@.len() == 0 || exported(es, n@) {
            Ok(es)
        } else if is_function(s) {
            match index_of(indices, s.address as u32) {
                None => Err(TranslateError::NotABlockStart(s.address as u32)),
                Some(f) => Ok(es.push((n@, ExportTarget::Func(f)))),
            }
        } else if s.address > u32::MAX {
            Err(TranslateError::AddressTooLarge(s.address))
        } else {
            Ok(es.push((n@, ExportTarget::Global { index: n_globals(es) as u32, value: s.address as u32 })))
        },
    }
}

/// The exports of the first `n` symbols, in symbol order.
pub open spec fn spec_exports(syms: Seq<ElfSymbol>, indices: Seq<(u32, u32)>, n: nat) -> Result<
    Seq<(Seq<u8>, ExportTarget)>,
    TranslateError,
>
    decreases n,
{
    if n == 0 {
        Ok(Seq::empty())
    } else {
        match spec_exports(syms, indices, (n - 1) as nat) {
            Err(e) => Err(e),
            Ok(es) => export_step(es, syms[n - 1], indices),
        }
    }
}

proof fn lemma_exports_err_stays(syms: Seq<ElfSymbol>, indices: Seq<(u32, u32)>, n: nat, m: nat)
    requires
        n <= m,
        spec_exports(syms, indices, n) is Err,
    ensures
        spec_exports(syms, indices, m) == spec_exports(syms, indices, n),
    decreases m - n,
{
    if n < m {
        lemma_exports_err_stays(syms, indices, n, (m - 1) as nat);
    }
}

proof fn lemma_exports_grow(syms: Seq<ElfSymbol>, indices: Seq<(u32, u32)>, n: nat)
    ensures
        spec_exports(syms, indices, n) matches Ok(es) ==> n_globals(es) <= es.len() <= n,
    decreases n,
{
    if n > 0 {
        lemma_exports_grow(syms, indices, (n - 1) as nat);
        if let Ok(es) = spec_exports(syms, indices, (n - 1) as nat) {
            if let Ok(es2) = spec_exports(syms, indices, n) {
                if es2.len() == es.len() + 1 {
                    assert(es2.drop_last() =~= es);
                }
            }
        }
    }
}

/// Whether one of `out` is named `name`.
fn is_exported(out: &Vec<Export>, name: &[u8]) -> (r: bool)
    ensures
        r == exists|k: int| 0 <= k < out@.len() && (#[trigger] out@[k]).name@ == name@,
{
    let mut k: usize = 0;
    while k < out.len()
        invariant
            k <= out@.len(),
            forall|j: int| 0 <= j < k ==> (#[trigger] out@[j]).name@ != name@,
        decreases out@.len() - k,
    {
        if bytes_eq(out[k].name.as_slice(), name) {
            return true;
        }
        k += 1;
    }
    false
}

/// A copy of `bs`.
fn copy_bytes(bs: &[u8]) -> (r: Vec<u8>)
    ensures
        r@ == bs@,
{
    let mut r: Vec<u8> = Vec::new();
    let mut i: usize = 0;
    while i < bs.len()
        invariant
            i <= bs@.len(),
            r@ == bs@.subrange(0, i as int),
        decreases bs@.len() - i,
    {
        r.push(bs[i]);
        i += 1;
    }
    r
}

/// The module's exports for `symbols`, given the function index of each
/// block (see `export_step`).
pub fn exports(symbols: &[ElfSymbol], indices: &[(u32, u32)]) -> (r: Result<Vec<Export>, TranslateError>)
    requires
        symbols@.len() <= u32::MAX,
    ensures
        match spec_exports(symbols@, indices@, symbols@.len()) {
            Err(e) => r == Err::<Vec<Export>, TranslateError>(e),
            Ok(es) => r matches Ok(v) && v@.len() == es.len() && forall|k: int|
                0 <= k < es.len() ==> (#[trigger] v@[k]).name@ == es[k].0 && v@[k].target == es[k].1,
        },
{
    let mut out: Vec<Export> = Vec::new();
    let mut globals: u32 = 0;
    let mut i: usize = 0;
    while i < symbols.len()
        invariant
            i <= symbols@.len(),
            symbols@.len() <= u32::MAX,
            spec_exports(symbols@, indices@, i as nat) is Ok,
            ({
                let es = spec_exports(symbols@, indices@, i as nat)->Ok_0;
                &&& out@.len() == es.len()
                &&& forall|k: int| 0 <= k < es.len() ==> (#[trigger] out@[k]).name@ == es[k].0 && out@[k].target == es[k].1
                &&& globals == n_globals(es)
            }),
        decreases symbols@.len() - i,
    {
        let ghost es = spec_exports(symbols@, indices@, i as nat)->Ok_0;
        proof {
            lemma_exports_grow(symbols@, indices@, i as nat);
            assert(spec_exports(symbols@, indices@, (i + 1) as nat) == export_step(es, symbols@[i as int], indices@));
        }
        let s = &symbols[i];
        let name = match &s.name {
            None => {
                proof { lemma_exports_err_stays(symbols@, indices@, (i + 1) as nat, symbols@.len()); }
                return Err(TranslateError::BadSymbolName);
            },
            Some(n) => n,
        };
        if !is_utf8(name.as_slice()) {
            proof { lemma_exports_err_stays(symbols@, indices@, (i + 1) as nat, symbols@.len()); }
            return Err(TranslateError::BadSymbolName);
        }
        let seen = is_exported(&out, name.as_slice());
        proof {
            if seen {
                let k = choose|k: int| 0 <= k < out@.len() && (#[trigger] out@[k]).name@ == name@;
                assert(es[k].0 == name@);
            }
            if exported(es, name@) {
                let k = choose|k: int| 0 <= k < es.len() && (#[trigger] es[k]).0 == name@;
                assert(out@[k].name@ == name@);
            }
        }
        if name.len() > 0 && !seen {
            let ghost before = out@;
            if s.kind == STT_FUNC || s.kind == STT_GNU_IFUNC {
                match find_index(indices, s.address as u32) {
                    None => {
                        proof { lemma_exports_err_stays(symbols@, indices@, (i + 1) as nat, symbols@.len()); }
                        return Err(TranslateError::NotABlockStart(s.address as u32));
                    },
                    Some(f) => {
                        out.push(Export { name: copy_bytes(name.as_slice()), target: ExportTarget::Func(f) });
                        proof {
                            let es2 = es.push((name@, ExportTarget::Func(f)));
                            assert(es2.drop_last() =~= es);
                            assert forall|k: int| 0 <= k < es2.len() implies (#[trigger] out@[k]).name@ == es2[k].0 && out@[k].target == es2[k].1 by {
                                if k < es.len() {
                                    assert(out@[k] == before[k]);
                                }
                            }
                        }
                    },
                }
            } else if s.address > 0xffff_ffff {
                proof { lemma_exports_err_stays(symbols@, indices@, (i + 1) as nat, symbols@.len()); }
                return Err(TranslateError::AddressTooLarge(s.address));
            } else {
                out.push(Export {
                    name: copy_bytes(name.as_slice()),
                    target: ExportTarget::Global { index: globals, value: s.address as u32 },
                });
                proof {
                    let es2 = es.push((name@, ExportTarget::Global { index: n_globals(es) as u32, value: s.address as u32 }));
                    assert(es2.drop_last() =~= es);
                    assert forall|k: int| 0 <= k < es2.len() implies (#[trigger] out@[k]).name@ == es2[k].0 && out@[k].target == es2[k].1 by {
                        if k < es.len() {
                            assert(out@[k] == before[k]);
                        }
                    }
                }
                globals += 1;
            }
        }
        i += 1;
    }
    Ok(out)
}

/// The index of the first section named `name`, from section `i` on.
pub open spec fn first_named(secs: Seq<ElfSection>, name: Seq<u8>, i: nat) -> Option<int>
    decreases secs.len() - i,
{
    if i >= secs.len() {
        None
    } else if secs[i as int].name matches Some(n) && encode_utf8(n@) == name {
        Some(i as int)
    } else {
        first_named(secs, name, i + 1)
    }
}

/// Where the code of `img` lies and its bytes: the first `.text` section,
/// whose bytes must be readable and end within the 32-bit address space.
pub open spec fn spec_code_region(img: ElfImage) -> Result<(u32, Seq<u8>), TranslateError> {
    match first_named(img.sections@, ".text".spec_bytes(), 0) {
        None => Err(TranslateError::NoText),
        Some(k) => {
            let sec = img.sections@[k];
            match sec.data {
                None => Err(TranslateError::UnreadableText),
                Some(d) => if (sec.address as u32) + d@.len() >= 0x1_0000_0000 {
                    Err(TranslateError::TextTooLarge)
                } else {
                    Ok((sec.address as u32, d@))
                },
            }
        },
    }
}

/// The load address and the bytes of the code of `img` (see
/// `spec_code_region`).
pub fn code_region(img: &ElfImage) -> (r: Result<(u32, &[u8]), TranslateError>)
    ensures
        match spec_code_region(*img) {
            Err(e) => r is Err && r->Err_0 == e,
            Ok((base, data)) => r is Ok && r->Ok_0.0 == base && r->Ok_0.1@ == data,
        },
{
    let mut i: usize = 0;
    while i < img.sections.len()
        invariant
            i <= img.sections@.len(),
            first_named(img.sections@, ".text".spec_bytes(), 0) == first_named(img.sections@, ".text".spec_bytes(), i as nat),
        decreases img.sections@.len() - i,
    {
        let sec = &img.sections[i];
        let hit = match &sec.name {
            None => false,
            Some(n) => bytes_eq(n.as_str().as_bytes(), ".text".as_bytes()),
        };
        if hit {
            let base = sec.address as u32;
            let data = match &sec.data {
                None => {
                    return Err(TranslateError::UnreadableText);
                },
                Some(d) => d.as_slice(),
            };
            if data.len() as u64 >= 0x1_0000_0000u64 - base as u64 {
                return Err(TranslateError::TextTooLarge);
            }
            return Ok((base, data));
        }
        i += 1;
    }
    Err(TranslateError::NoText)
}

} // verus!
