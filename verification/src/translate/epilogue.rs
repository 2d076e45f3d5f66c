use vstd::prelude::*;

use crate::instr::{BranchType, JumpAndLinkRegister, Register};
use super::{BlockTy, TranslateError, Wasm, get_all, read_x, x_local};
use super::{get_all_code, read_x_code, cat, x_of};

verus! {

/// How a translated block ends.
#[derive(Debug, Clone, Copy, PartialEq, Eq, Structural)]
pub enum Termination {
    /// An indirect jump; `save_pc` is the return address it links.
    JumpAndLinkRegister { jalr: JumpAndLinkRegister, save_pc: u32 },
    /// A direct jump to `pc`, linking `save_pc` in `dest`.
    JumpAndLink { dest: Register, pc: u32, save_pc: u32 },
    /// A conditional branch to `pc`, else to `else_pc`.
    Branch { src1: Register, src2: Register, funct: BranchType, pc: u32, else_pc: u32 },
    /// A return to the caller of the translated code.
    ReturnToSender,
}

/// The function index of the block at `addr`, the first entry for it.
pub open spec fn index_of(indices: Seq<(u32, u32)>, addr: u32) -> Option<u32>
    decreases indices.len(),
{
    if indices.len() == 0 {
        None
    } else if indices[0].0 == addr {
        Some(indices[0].1)
    } else {
        index_of(indices.drop_first(), addr)
    }
}

/// The comparison of a branch.
pub open spec fn branch_op(t: BranchType) -> Wasm {
    match t {
        BranchType::Equal => Wasm::I32Eq,
        BranchType::NotEqual => Wasm::I32Ne,
        BranchType::LessThan => Wasm::I32LtS,
        BranchType::LessThanUnsigned => Wasm::I32LtU,
        BranchType::GreaterThanOrEqual => Wasm::I32GeS,
        BranchType::GreaterThanOrEqualUnsigned => Wasm::I32GeU,
    }
}

/// Code that links `save_pc` in `dest`, nothing for x0.
pub open spec fn link(dest: Register, save_pc: u32) -> Seq<Wasm> {
    if dest@ == 0 {
        Seq::empty()
    } else {
        seq![Wasm::I32Const(save_pc as i32), Wasm::LocalSet(x_local(dest))]
    }
}

/// The code that ends a block: it passes every register on to the block
/// it continues in, as a tail call (for an indirect jump, through the
/// table of blocks, which starts at the first block's address; addresses
/// from 0xe0000000 on return to the caller with the target in a7).
pub open spec fn epilogue(indices: Seq<(u32, u32)>, term: Termination) -> Result<Seq<Wasm>, TranslateError> {
    match term {
        Termination::JumpAndLink { dest, pc, save_pc } => match index_of(indices, pc) {
            None => Err(TranslateError::UnknownTarget(pc)),
            Some(f) => Ok(link(dest, save_pc) + get_all() + seq![Wasm::ReturnCall(f), Wasm::End]),
        },
        Termination::Branch { src1, src2, funct, pc, else_pc } => match index_of(indices, pc) {
            None => Err(TranslateError::UnknownTarget(pc)),
            Some(t) => match index_of(indices, else_pc) {
                None => Err(TranslateError::UnknownTarget(else_pc)),
                Some(e) => Ok(get_all() + read_x(src1) + read_x(src2) + seq![
                    branch_op(funct),
                    Wasm::If(BlockTy::Function(0)),
                    Wasm::ReturnCall(t),
                    Wasm::Else,
                    Wasm::ReturnCall(e),
                    Wasm::End,
                    Wasm::End,
                ]),
            },
        },
        Termination::JumpAndLinkRegister { jalr, save_pc } => if indices.len() == 0 {
            Err(TranslateError::NoBlocks)
        } else {
            let target = read_x(jalr.base) + seq![Wasm::I32Const(jalr.offset@ as i32), Wasm::I32Add];
            Ok(link(jalr.dest, save_pc) + get_all() + target + target + seq![
                Wasm::I32Const(0xe000_0000u32 as i32),
                Wasm::I32GeU,
                Wasm::If(BlockTy::Function(2)),
                Wasm::LocalSet(16),
                Wasm::Return,
                Wasm::Else,
                Wasm::I32Const(indices[0].0 as i32),
                Wasm::I32Sub,
                Wasm::I32Const(1),
                Wasm::I32ShrU,
                Wasm::ReturnCallIndirect(0, 0),
                Wasm::End,
                Wasm::End,
            ])
        },
        Termination::ReturnToSender => Ok(get_all() + seq![Wasm::Return, Wasm::End]),
    }
}

/// The function index of the block at `addr`.
pub(crate) fn find_index(indices: &[(u32, u32)], addr: u32) -> (r: Option<u32>)
    ensures
        r == index_of(indices@, addr),
{
    let mut i: usize = 0;
    assert(indices@.skip(0) =~= indices@);
    while i < indices.len()
        invariant
            i <= indices@.len(),
            index_of(indices@, addr) == index_of(indices@.skip(i as int), addr),
        decreases indices@.len() - i,
    {
        assert(indices@.skip(i as int).drop_first() =~= indices@.skip(i + 1));
        if indices[i].0 == addr {
            return Some(indices[i].1);
        }
        i += 1;
    }
    assert(indices@.skip(i as int) =~= Seq::<(u32, u32)>::empty());
    None
}

fn link_code(dest: Register, save_pc: u32) -> (c: Vec<Wasm>)
    ensures
        c@ == link(dest, save_pc),
{
    if dest.index() == 0 {
        Vec::new()
    } else {
        vec![Wasm::I32Const(save_pc as i32), Wasm::LocalSet(x_of(dest))]
    }
}

/// The code that ends a block with `term`, given the function index of
/// every block by address, in the order of the addresses (see `epilogue`).
pub fn emit_epilogue(indices: &[(u32, u32)], term: Termination) -> (r: Result<Vec<Wasm>, TranslateError>)
    ensures
        match epilogue(indices@, term) {
            Ok(code) => r matches Ok(v) && v@ == code,
            Err(e) => r == Err::<Vec<Wasm>, TranslateError>(e),
        },
{
    match term {
        Termination::JumpAndLink { dest, pc, save_pc } => {
            let f = match find_index(indices, pc) {
                Some(f) => f,
                None => {
                    return Err(TranslateError::UnknownTarget(pc));
                },
            };
            let c = cat(link_code(dest, save_pc), get_all_code());
            Ok(cat(c, vec![Wasm::ReturnCall(f), Wasm::End]))
        },
        Termination::Branch { src1, src2, funct, pc, else_pc } => {
            let t = match find_index(indices, pc) {
                Some(t) => t,
                None => {
                    return Err(TranslateError::UnknownTarget(pc));
                },
            };
            let e = match find_index(indices, else_pc) {
                Some(e) => e,
                None => {
                    return Err(TranslateError::UnknownTarget(else_pc));
                },
            };
            let op = match funct {
                BranchType::Equal => Wasm::I32Eq,
                BranchType::NotEqual => Wasm::I32Ne,
                BranchType::LessThan => Wasm::I32LtS,
                BranchType::LessThanUnsigned => Wasm::I32LtU,
                BranchType::GreaterThanOrEqual => Wasm::I32GeS,
                BranchType::GreaterThanOrEqualUnsigned => Wasm::I32GeU,
            };
            let c = cat(get_all_code(), read_x_code(src1));
            let c = cat(c, read_x_code(src2));
            Ok(cat(c, vec![
                op,
                Wasm::If(BlockTy::Function(0)),
                Wasm::ReturnCall(t),
                Wasm::Else,
                Wasm::ReturnCall(e),
                Wasm::End,
                Wasm::End,
            ]))
        },
        Termination::JumpAndLinkRegister { jalr, save_pc } => {
            if indices.len() == 0 {
                return Err(TranslateError::NoBlocks);
            }
            let start = indices[0].0;
            let c = cat(link_code(jalr.dest, save_pc), get_all_code());
            let c = cat(c, read_x_code(jalr.base));
            let c = cat(c, vec![Wasm::I32Const(i32::from(jalr.offset)), Wasm::I32Add]);
            let c = cat(c, read_x_code(jalr.base));
            let c = cat(c, vec![Wasm::I32Const(i32::from(jalr.offset)), Wasm::I32Add]);
            Ok(cat(c, vec![
                Wasm::I32Const(0xe000_0000u32 as i32),
                Wasm::I32GeU,
                Wasm::If(BlockTy::Function(2)),
                Wasm::LocalSet(16),
                Wasm::Return,
                Wasm::Else,
                Wasm::I32Const(start as i32),
                Wasm::I32Sub,
                Wasm::I32Const(1),
                Wasm::I32ShrU,
                Wasm::ReturnCallIndirect(0, 0),
                Wasm::End,
                Wasm::End,
            ]))
        },
        Termination::ReturnToSender => Ok(cat(get_all_code(), vec![Wasm::Return, Wasm::End])),
    }
}

/// Where the end of a block goes: after a direct jump, a tail call to the
/// function of the block at the target (after linking the return address
/// in a destination other than x0); after a branch, its comparison picks
/// between a tail call to the target's function (taken) and one to the
/// fall-through block's function; a target without a block is an error.
pub proof fn law_epilogue_targets(indices: Seq<(u32, u32)>, term: Termination)
    ensures
        term matches Termination::JumpAndLink { dest, pc, save_pc } ==> match index_of(indices, pc) {
            None => epilogue(indices, term) == Err::<Seq<Wasm>, TranslateError>(TranslateError::UnknownTarget(pc)),
            Some(f) => epilogue(indices, term) matches Ok(c) && c.len() >= 2
                && c[c.len() - 2] == Wasm::ReturnCall(f) && c.last() == Wasm::End
                && (dest@ != 0 ==> c[0] == Wasm::I32Const(save_pc as i32) && c[1] == Wasm::LocalSet(x_local(dest))),
        },
        term matches Termination::Branch { src1, src2, funct, pc, else_pc } ==> match (index_of(indices, pc), index_of(indices, else_pc)) {
            (Some(t), Some(e)) => epilogue(indices, term) matches Ok(c) && c.len() >= 7
                && c[c.len() - 7] == branch_op(funct) && c[c.len() - 6] == Wasm::If(BlockTy::Function(0))
                && c[c.len() - 5] == Wasm::ReturnCall(t) && c[c.len() - 4] == Wasm::Else
                && c[c.len() - 3] == Wasm::ReturnCall(e),
            (None, _) => epilogue(indices, term) == Err::<Seq<Wasm>, TranslateError>(TranslateError::UnknownTarget(pc)),
            (Some(_), None) => epilogue(indices, term) == Err::<Seq<Wasm>, TranslateError>(TranslateError::UnknownTarget(else_pc)),
        },
{
}

} // verus!
