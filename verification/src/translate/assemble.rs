use vstd::prelude::*;

use crate::instr::Instruction;
use crate::interpreter::linux::{ElfImage, ElfSymbol, parse_elf, elf_image_of};
use super::{TranslateError, Wasm, lower, emit_instruction};
use super::blocks::{Block, discover_blocks, sweep, listed, last_open, floor};
use super::epilogue::{Termination, epilogue, emit_epilogue};
use super::module::{
    Export, ExportTarget, FIRST_BLOCK, START_FUNCTION, TRAP_FUNCTION, code_region, exports, function_index,
    module_layout, ordered_even, slot, spec_code_region, spec_exports,
};

verus! {

/// The number of functions the module imports from its host: `ebreak` and
/// `ecall`.
pub const N_IMPORTS: u32 = 2;

/// A value type of the module.
#[derive(Debug, Clone, Copy, PartialEq, Eq, Structural)]
pub enum ValType {
    I32,
    F64,
}

/// A function type.
pub struct FuncType {
    pub params: Vec<ValType>,
    pub results: Vec<ValType>,
}

/// An imported function: module, name and type index.
pub struct Import {
    pub module: &'static str,
    pub name: &'static str,
    pub ty: u32,
}

/// The body of a defined function: its runs of locals and its code.
pub struct FunctionBody {
    pub locals: Vec<(u32, ValType)>,
    pub code: Vec<Wasm>,
}

/// A translated module, section by section: the function types, the
/// imports, the type of each defined function, the function table (one
/// entry per table slot, also its element segment at offset 0), the
/// minimum size of the memory in pages, the values of the immutable `i32`
/// globals, the exports, the start function, and the code of each defined
/// function.
pub struct ModuleSpec {
    pub types: Vec<FuncType>,
    pub imports: Vec<Import>,
    pub functions: Vec<u32>,
    pub table: Vec<u32>,
    pub memory_min_pages: u64,
    pub globals: Vec<u32>,
    pub exports: Vec<Export>,
    pub start: u32,
    pub code: Vec<FunctionBody>,
}

/// The register file that blocks take and return: x1 to x31, then f0 to
/// f31.
pub open spec fn register_file() -> Seq<ValType> {
    Seq::new(63, |i: int| if i < 31 { ValType::I32 } else { ValType::F64 })
}

/// The locals of a block function.
pub open spec fn block_locals() -> Seq<(u32, ValType)> {
    seq![(31u32, ValType::I32), (32u32, ValType::F64)]
}

/// The code for the instructions `body`, one after another, or the error of
/// the first that has no translation.
pub open spec fn body_code(body: Seq<(u32, Instruction)>) -> Result<Seq<Wasm>, TranslateError>
    decreases body.len(),
{
    if body.len() == 0 {
        Ok(Seq::empty())
    } else {
        match body_code(body.drop_last()) {
            Err(e) => Err(e),
            Ok(c) => match lower(body.last().0, body.last().1) {
                Err(e) => Err(e),
                Ok(d) => Ok(c + d),
            },
        }
    }
}

/// The code of a block: its instructions, then its end.
pub open spec fn block_code(indices: Seq<(u32, u32)>, b: Block) -> Result<Seq<Wasm>, TranslateError> {
    match body_code(b.body@) {
        Err(e) => Err(e),
        Ok(c) => match epilogue(indices, b.term) {
            Err(e) => Err(e),
            Ok(d) => Ok(c + d),
        },
    }
}

/// The code of the first `n` blocks.
pub open spec fn blocks_code(indices: Seq<(u32, u32)>, blocks: Seq<(u32, Block)>, n: nat) -> Result<Seq<Seq<Wasm>>, TranslateError>
    decreases n,
{
    if n == 0 {
        Ok(Seq::empty())
    } else {
        match blocks_code(indices, blocks, (n - 1) as nat) {
            Err(e) => Err(e),
            Ok(cs) => match block_code(indices, blocks[n - 1].1) {
                Err(e) => Err(e),
                Ok(c) => Ok(cs.push(c)),
            },
        }
    }
}

/// The code of every defined function: the empty start function, the
/// trapping function, the function that returns to the host, then the
/// blocks.
pub open spec fn code_bodies(indices: Seq<(u32, u32)>, blocks: Seq<(u32, Block)>) -> Result<Seq<Seq<Wasm>>, TranslateError> {
    match epilogue(indices, Termination::ReturnToSender) {
        Err(e) => Err(e),
        Ok(ret) => match blocks_code(indices, blocks, blocks.len()) {
            Err(e) => Err(e),
            Ok(cs) => Ok(seq![seq![Wasm::End], seq![Wasm::Unreachable, Wasm::End], ret] + cs),
        },
    }
}

/// The function index of each block, by address.
pub open spec fn layout_indices(blocks: Seq<(u32, Block)>) -> Seq<(u32, u32)> {
    Seq::new(blocks.len(), |i: int| (blocks[i].0, function_index(i, N_IMPORTS)))
}

/// The values of the globals that `es` export, in order.
pub open spec fn global_values(es: Seq<(Seq<u8>, ExportTarget)>) -> Seq<u32>
    decreases es.len(),
{
    if es.len() == 0 {
        Seq::empty()
    } else {
        let rest = global_values(es.drop_last());
        match es.last().1 {
            ExportTarget::Global { index: _, value } => rest.push(value),
            ExportTarget::Func(_) => rest,
        }
    }
}

/// Whether `m` is the module for `blocks`, with exports `es` and function
/// code `codes`.
pub open spec fn module_is(m: ModuleSpec, blocks: Seq<(u32, Block)>, es: Seq<(Seq<u8>, ExportTarget)>, codes: Seq<Seq<Wasm>>) -> bool {
    let first = blocks[0].0;
    let last = blocks[blocks.len() - 1].0;
    &&& m.types@.len() == 3
    &&& m.types@[0].params@ == register_file() && m.types@[0].results@ == register_file()
    &&& m.types@[1].params@ == Seq::<ValType>::empty() && m.types@[1].results@ == Seq::<ValType>::empty()
    &&& m.types@[2].params@ == register_file().push(ValType::I32) && m.types@[2].results@ == register_file()
    &&& m.imports@.len() == 2
    &&& m.imports@[0].module@ == "sys"@ && m.imports@[0].name@ == "ebreak"@ && m.imports@[0].ty == 0
    &&& m.imports@[1].module@ == "sys"@ && m.imports@[1].name@ == "ecall"@ && m.imports@[1].ty == 0
    &&& m.functions@ == seq![1u32] + Seq::new((blocks.len() + 2) as nat, |i: int| 0u32)
    &&& m.table@.len() == last / 2 - first / 2 + 1
    &&& forall|i: int| 0 <= i < blocks.len() ==> m.table@[slot(#[trigger] blocks[i].0, first)] == function_index(i, N_IMPORTS)
    &&& forall|j: int| 0 <= j < m.table@.len() && (forall|i: int| 0 <= i < blocks.len() ==> slot(#[trigger] blocks[i].0, first) != j)
        ==> m.table@[j] == TRAP_FUNCTION
    &&& m.memory_min_pages == 0
    &&& m.globals@ == global_values(es)
    &&& m.exports@.len() == es.len()
    &&& forall|k: int| 0 <= k < es.len() ==> (#[trigger] m.exports@[k]).name@ == es[k].0 && m.exports@[k].target == es[k].1
    &&& m.start == START_FUNCTION
    &&& m.code@.len() == codes.len()
    &&& forall|k: int| 0 <= k < codes.len() ==> (#[trigger] m.code@[k]).code@ == codes[k]
        && m.code@[k].locals@ == (if k == 0 { Seq::empty() } else { block_locals() })
}

/// What assembling the module for `blocks` and `syms` gives: the block list
/// must be by increasing even address and, with the symbols, small enough
/// to number; then the layout's, the exports' and the code's errors come in
/// that order.
pub open spec fn assembled(r: Result<ModuleSpec, TranslateError>, blocks: Seq<(u32, Block)>, syms: Seq<ElfSymbol>) -> bool {
    if !ordered_even(blocks) {
        r == Err::<ModuleSpec, TranslateError>(TranslateError::BadBlockList)
    } else if blocks.len() > 0xffff_fff0 {
        r == Err::<ModuleSpec, TranslateError>(TranslateError::TooManyBlocks)
    } else if syms.len() > u32::MAX {
        r == Err::<ModuleSpec, TranslateError>(TranslateError::TooManySymbols)
    } else if blocks.len() == 0 {
        r == Err::<ModuleSpec, TranslateError>(TranslateError::NoBlocks)
    } else if blocks[0].0 != FIRST_BLOCK {
        r == Err::<ModuleSpec, TranslateError>(TranslateError::MisplacedCode(blocks[0].0))
    } else {
        let indices = layout_indices(blocks);
        match spec_exports(syms, indices, syms.len()) {
            Err(e) => r == Err::<ModuleSpec, TranslateError>(e),
            Ok(es) => match code_bodies(indices, blocks) {
                Err(e) => r == Err::<ModuleSpec, TranslateError>(e),
                Ok(codes) => r matches Ok(m) && module_is(m, blocks, es, codes),
            },
        }
    }
}

/// What translating `img` gives: its code region, the blocks found there
/// (see `discover_blocks`), and the module assembled from them and the
/// image's symbols.
pub open spec fn built(r: Result<ModuleSpec, TranslateError>, img: ElfImage) -> bool {
    match spec_code_region(img) {
        Err(e) => r == Err::<ModuleSpec, TranslateError>(e),
        Ok((base, data)) => match sweep(data, base, base, Map::empty(), true) {
            Err(e) => r == Err::<ModuleSpec, TranslateError>(e),
            Ok(m) => if m.dom() == Set::<u32>::empty() {
                r == Err::<ModuleSpec, TranslateError>(TranslateError::NoBlocks)
            } else if last_open(m) {
                r == Err::<ModuleSpec, TranslateError>(TranslateError::Unterminated(floor(m, u32::MAX)))
            } else {
                exists|blocks: Seq<(u32, Block)>| listed(m, blocks) && assembled(r, blocks, img.symbols@)
            },
        },
    }
}

proof fn lemma_body_err_stays(body: Seq<(u32, Instruction)>, n: int)
    requires
        0 <= n <= body.len(),
        body_code(body.subrange(0, n)) is Err,
    ensures
        body_code(body) == body_code(body.subrange(0, n)),
    decreases body.len() - n,
{
    if n < body.len() {
        assert(body.subrange(0, n + 1).drop_last() =~= body.subrange(0, n));
        lemma_body_err_stays(body, n + 1);
    } else {
        assert(body.subrange(0, n) =~= body);
    }
}

proof fn lemma_blocks_err_stays(indices: Seq<(u32, u32)>, blocks: Seq<(u32, Block)>, n: nat, k: nat)
    requires
        n <= k,
        blocks_code(indices, blocks, n) is Err,
    ensures
        blocks_code(indices, blocks, k) == blocks_code(indices, blocks, n),
    decreases k - n,
{
    if n < k {
        lemma_blocks_err_stays(indices, blocks, n, (k - 1) as nat);
    }
}

/// The code of a block (see `block_code`).
fn emit_block(indices: &[(u32, u32)], b: &Block) -> (r: Result<Vec<Wasm>, TranslateError>)
    ensures
        match block_code(indices@, *b) {
            Err(e) => r == Err::<Vec<Wasm>, TranslateError>(e),
            Ok(c) => r matches Ok(v) && v@ == c,
        },
{
    let mut out: Vec<Wasm> = Vec::new();
    let mut j: usize = 0;
    assert(b.body@.subrange(0, 0) =~= Seq::<(u32, Instruction)>::empty());
    while j < b.body.len()
        invariant
            j <= b.body@.len(),
            body_code(b.body@.subrange(0, j as int)) == Ok::<Seq<Wasm>, TranslateError>(out@),
        decreases b.body@.len() - j,
    {
        let (pc, instr) = b.body[j];
        proof {
            assert(b.body@.subrange(0, j + 1).drop_last() =~= b.body@.subrange(0, j as int));
        }
        match emit_instruction(pc, instr) {
            Err(e) => {
                proof {
                    lemma_body_err_stays(b.body@, j + 1);
                }
                return Err(e);
            },
            Ok(mut v) => {
                out.append(&mut v);
            },
        }
        j += 1;
    }
    assert(b.body@.subrange(0, j as int) =~= b.body@);
    let mut tail = emit_epilogue(indices, b.term)?;
    out.append(&mut tail);
    Ok(out)
}

/// The block register file as a vector.
fn register_file_exec() -> (r: Vec<ValType>)
    ensures
        r@ == register_file(),
{
    let mut r: Vec<ValType> = Vec::new();
    let mut i: usize = 0;
    while i < 63
        invariant
            i <= 63,
            r@.len() == i,
            forall|k: int| 0 <= k < i ==> r@[k] == register_file()[k],
        decreases 63 - i,
    {
        r.push(if i < 31 { ValType::I32 } else { ValType::F64 });
        i += 1;
    }
    assert(r@ =~= register_file());
    r
}

fn block_locals_exec() -> (r: Vec<(u32, ValType)>)
    ensures
        r@ == block_locals(),
{
    let r = vec![(31u32, ValType::I32), (32u32, ValType::F64)];
    assert(r@ =~= block_locals());
    r
}

/// Whether `blocks` are by increasing even address.
fn check_blocks(blocks: &[(u32, Block)]) -> (r: bool)
    ensures
        r == ordered_even(blocks@),
{
    let mut i: usize = 0;
    while i < blocks.len()
        invariant
            i <= blocks@.len(),
            forall|j: int, k: int| 0 <= j < k < i ==> blocks@[j].0 < blocks@[k].0,
            forall|j: int| 0 <= j < i ==> #[trigger] blocks@[j].0 % 2 == 0,
        decreases blocks@.len() - i,
    {
        if blocks[i].0 % 2 != 0 {
            return false;
        }
        if i > 0 && blocks[i - 1].0 >= blocks[i].0 {
            return false;
        }
        i += 1;
    }
    true
}

/// Assembles the module for `blocks` and the image's symbols `symbols`
/// (see `assembled`).
pub fn assemble_module(blocks: &[(u32, Block)], symbols: &[ElfSymbol]) -> (r: Result<ModuleSpec, TranslateError>)
    ensures
        assembled(r, blocks@, symbols@),
{
    if !check_blocks(blocks) {
        return Err(TranslateError::BadBlockList);
    }
    if blocks.len() > 0xffff_fff0 {
        return Err(TranslateError::TooManyBlocks);
    }
    if symbols.len() as u64 > 0xffff_ffff {
        return Err(TranslateError::TooManySymbols);
    }
    let layout = match module_layout(blocks, N_IMPORTS) {
        Err(e) => {
            return Err(e);
        },
        Ok(l) => l,
    };
    assert(layout.indices@ =~= layout_indices(blocks@));
    let exps = match exports(symbols, layout.indices.as_slice()) {
        Err(e) => {
            return Err(e);
        },
        Ok(v) => v,
    };
    let ghost es = spec_exports(symbols@, layout_indices(blocks@), symbols@.len())->Ok_0;
    let ret = match emit_epilogue(layout.indices.as_slice(), Termination::ReturnToSender) {
        Err(e) => {
            return Err(e);
        },
        Ok(v) => v,
    };
    let mut code: Vec<FunctionBody> = Vec::new();
    code.push(FunctionBody { locals: Vec::new(), code: vec![Wasm::End] });
    code.push(FunctionBody { locals: block_locals_exec(), code: vec![Wasm::Unreachable, Wasm::End] });
    code.push(FunctionBody { locals: block_locals_exec(), code: ret });
    let ghost head = seq![seq![Wasm::End], seq![Wasm::Unreachable, Wasm::End], ret@];
    assert(code@[0].code@ =~= head[0]);
    assert(code@[1].code@ =~= head[1]);
    let ghost indices = layout_indices(blocks@);
    proof {
        if blocks_code(indices, blocks@, blocks@.len()) is Err {
            assert(code_bodies(indices, blocks@) == blocks_code(indices, blocks@, blocks@.len()));
        }
    }
    let mut i: usize = 0;
    while i < blocks.len()
        invariant
            i <= blocks@.len(),
            indices == layout.indices@,
            blocks_code(indices, blocks@, i as nat) is Ok,
            blocks_code(indices, blocks@, i as nat)->Ok_0.len() == i,
            blocks_code(indices, blocks@, blocks@.len()) is Err ==> assembled(
                Err::<ModuleSpec, TranslateError>(blocks_code(indices, blocks@, blocks@.len())->Err_0),
                blocks@,
                symbols@,
            ),
            code@.len() == 3 + i,
            forall|k: int| 0 <= k < 3 ==> (#[trigger] code@[k]).code@ == head[k],
            forall|k: int| 0 <= k < i ==> (#[trigger] code@[3 + k]).code@ == blocks_code(indices, blocks@, i as nat)->Ok_0[k],
            forall|k: int| 0 <= k < code@.len() ==> (#[trigger] code@[k]).locals@ == (if k == 0 { Seq::empty() } else { block_locals() }),
        decreases blocks@.len() - i,
    {
        let ghost prev = blocks_code(indices, blocks@, i as nat)->Ok_0;
        proof {
            assert(blocks_code(indices, blocks@, (i + 1) as nat) == match block_code(indices, blocks@[i as int].1) {
                Err(e) => Err(e),
                Ok(c) => Ok::<Seq<Seq<Wasm>>, TranslateError>(prev.push(c)),
            });
        }
        match emit_block(layout.indices.as_slice(), &blocks[i].1) {
            Err(e) => {
                proof {
                    lemma_blocks_err_stays(indices, blocks@, (i + 1) as nat, blocks@.len());
                }
                return Err(e);
            },
            Ok(c) => {
                let ghost before = code@;
                let ghost cv = c@;
                code.push(FunctionBody { locals: block_locals_exec(), code: c });
                proof {
                    let now = blocks_code(indices, blocks@, (i + 1) as nat)->Ok_0;
                    assert(now == prev.push(cv));
                    assert forall|k: int| 0 <= k < i + 1 implies (#[trigger] code@[3 + k]).code@ == now[k] by {
                        if k < i {
                            assert(code@[3 + k] == before[3 + k]);
                        } else {
                            assert(code@[3 + k].code@ == cv);
                        }
                    }
                    assert forall|k: int| 0 <= k < 3 implies (#[trigger] code@[k]).code@ == head[k] by {
                        assert(code@[k] == before[k]);
                    }
                    assert forall|k: int| 0 <= k < code@.len() implies (#[trigger] code@[k]).locals@ == (if k == 0 { Seq::empty() } else { block_locals() }) by {
                        if k < before.len() {
                            assert(code@[k] == before[k]);
                        }
                    }
                }
            },
        }
        i += 1;
    }
    let ghost cs = blocks_code(indices, blocks@, blocks@.len())->Ok_0;
    assert(code_bodies(indices, blocks@) == Ok::<Seq<Seq<Wasm>>, TranslateError>(head + cs));
    let mut globals: Vec<u32> = Vec::new();
    let mut k: usize = 0;
    while k < exps.len()
        invariant
            k <= exps@.len(),
            exps@.len() == es.len(),
            forall|j: int| 0 <= j < es.len() ==> (#[trigger] exps@[j]).name@ == es[j].0 && exps@[j].target == es[j].1,
            globals@ == global_values(es.subrange(0, k as int)),
        decreases exps@.len() - k,
    {
        assert(es.subrange(0, k + 1).drop_last() =~= es.subrange(0, k as int));
        match exps[k].target {
            ExportTarget::Global { index: _, value } => {
                globals.push(value);
            },
            ExportTarget::Func(_) => {},
        }
        k += 1;
    }
    assert(es.subrange(0, k as int) =~= es);
    let mut functions: Vec<u32> = vec![1];
    let mut f: usize = 0;
    while f < blocks.len() + 2
        invariant
            blocks@.len() <= 0xffff_fff0,
            f <= blocks@.len() + 2,
            functions@ == seq![1u32] + Seq::new(f as nat, |i: int| 0u32),
        decreases blocks@.len() + 2 - f,
    {
        functions.push(0);
        f += 1;
        assert(functions@ =~= seq![1u32] + Seq::new(f as nat, |i: int| 0u32));
    }
    let mut with_target = register_file_exec();
    with_target.push(ValType::I32);
    let types = vec![
        FuncType { params: register_file_exec(), results: register_file_exec() },
        FuncType { params: Vec::new(), results: Vec::new() },
        FuncType { params: with_target, results: register_file_exec() },
    ];
    let imports = vec![
        Import { module: "sys", name: "ebreak", ty: 0 },
        Import { module: "sys", name: "ecall", ty: 0 },
    ];
    let m = ModuleSpec {
        types,
        imports,
        functions,
        table: layout.table,
        memory_min_pages: 0,
        globals,
        exports: exps,
        start: START_FUNCTION,
        code,
    };
    assert forall|j: int| 0 <= j < (head + cs).len() implies (#[trigger] m.code@[j]).code@ == (head + cs)[j] by {
        if j < 3 {
            assert(code@[j].code@ == head[j]);
        } else {
            let k = j - 3;
            assert(code@[3 + k].code@ == cs[k]);
            assert((head + cs)[j] == cs[k]);
        }
    }
    Ok(m)
}

/// Translates `img`: finds its code, splits it into blocks and assembles
/// the module (see `built`).
pub fn build_module(img: &ElfImage) -> (r: Result<ModuleSpec, TranslateError>)
    ensures
        built(r, *img),
{
    let (base, data) = match code_region(img) {
        Err(e) => {
            return Err(e);
        },
        Ok(t) => t,
    };
    let blocks = match discover_blocks(base, data) {
        Err(e) => {
            return Err(e);
        },
        Ok(b) => b,
    };
    let r = assemble_module(blocks.as_slice(), img.symbols.as_slice());
    proof {
        let m = sweep(data@, base, base, Map::empty(), true)->Ok_0;
        assert(listed(m, blocks@) && assembled(r, blocks@, img.symbols@));
    }
    r
}

/// Translates the ELF file `elf` (see `built`); bytes that are no ELF file
/// give `NotAnElf`.
pub fn translate_elf(elf: &[u8]) -> (r: Result<ModuleSpec, TranslateError>)
    ensures
        match elf_image_of(elf@) {
            None => r == Err::<ModuleSpec, TranslateError>(TranslateError::NotAnElf),
            Some(img) => built(r, img),
        },
{
    match parse_elf(elf) {
        None => Err(TranslateError::NotAnElf),
        Some(img) => build_module(&img),
    }
}

} // verus!
