use rv::instr::{Instruction, Register, JumpAndLinkRegister, I12, BranchType};
use rv::translate::blocks::discover_blocks;
use rv::translate::epilogue::{emit_epilogue, Termination};
use rv::interpreter::linux::{ElfImage, ElfSection, ElfSymbol};
use rv::translate::assemble::{assemble_module, build_module, translate_elf, ValType};
use rv::translate::module::{code_region, exports, module_layout, ExportTarget};
use rv::translate::{emit_instruction, BlockTy, TranslateError, Wasm};

fn words(ws: &[u32]) -> Vec<u8> {
    ws.iter().flat_map(|w| w.to_le_bytes()).collect()
}

#[test]
fn addi_becomes_a_local_update() {
    let addi = Instruction::decode(0x0015_0513).unwrap(); // addi a0, a0, 1
    assert_eq!(
        emit_instruction(0x600000, addi),
        Ok(vec![Wasm::LocalGet(9), Wasm::I32Const(1), Wasm::I32Add, Wasm::LocalSet(9)])
    );
    let li = Instruction::decode(0x0050_0513).unwrap(); // addi a0, x0, 5
    assert_eq!(
        emit_instruction(0x600000, li),
        Ok(vec![Wasm::I32Const(0), Wasm::I32Const(5), Wasm::I32Add, Wasm::LocalSet(9)])
    );
    // writes to x0 vanish
    let nop = Instruction::decode(0x0000_0013).unwrap();
    assert_eq!(emit_instruction(0x600000, nop), Ok(vec![]));
}

#[test]
fn division_guards_a_zero_divisor() {
    let div = Instruction::decode(0x02c5_c533).unwrap(); // div a0, a1, a2
    assert_eq!(
        emit_instruction(0, div),
        Ok(vec![
            Wasm::LocalGet(11),
            Wasm::I32Eqz,
            Wasm::If(BlockTy::ResultI32),
            Wasm::I32Const(-1),
            Wasm::Else,
            Wasm::LocalGet(10),
            Wasm::LocalGet(11),
            Wasm::I32DivS,
            Wasm::End,
            Wasm::LocalSet(9),
        ])
    );
}

#[test]
fn auipc_folds_the_pc() {
    let auipc = Instruction::decode(0x0000_1517).unwrap(); // auipc a0, 1
    assert_eq!(emit_instruction(0x600000, auipc), Ok(vec![Wasm::I32Const(0x601000), Wasm::LocalSet(9)]));
}

#[test]
fn system_calls_pass_every_register() {
    let ecall = Instruction::decode(0x0000_0073).unwrap();
    let code = emit_instruction(0, ecall).unwrap();
    assert_eq!(code.len(), 127);
    assert_eq!(code[0], Wasm::LocalGet(0));
    assert_eq!(code[62], Wasm::LocalGet(62));
    assert_eq!(code[63], Wasm::Call(1));
    assert_eq!(code[64], Wasm::LocalSet(62));
    assert_eq!(code[126], Wasm::LocalSet(0));
}

#[test]
fn jumps_have_no_body_code() {
    let jal = Instruction::decode(0x0080_00ef).unwrap();
    assert_eq!(emit_instruction(0x1234, jal), Err(TranslateError::Unsupported(0x1234)));
}

#[test]
fn epilogues_tail_call_the_next_block() {
    let indices = [(0x600000, 5), (0x600008, 6)];
    let code = emit_epilogue(&indices, Termination::JumpAndLink { dest: Register::ra(), pc: 0x600008, save_pc: 0x600004 }).unwrap();
    assert_eq!(code[0], Wasm::I32Const(0x600004));
    assert_eq!(code[1], Wasm::LocalSet(0));
    assert_eq!(code.len(), 2 + 63 + 2);
    assert_eq!(code[65], Wasm::ReturnCall(6));
    assert_eq!(code[66], Wasm::End);
    assert_eq!(
        emit_epilogue(&indices, Termination::JumpAndLink { dest: Register::zero(), pc: 0x700000, save_pc: 0 }),
        Err(TranslateError::UnknownTarget(0x700000))
    );
    let ret = emit_epilogue(&indices, Termination::ReturnToSender).unwrap();
    assert_eq!(ret.len(), 65);
    assert_eq!(ret[63], Wasm::Return);
    let jalr = Termination::JumpAndLinkRegister {
        jalr: JumpAndLinkRegister { dest: Register::zero(), base: Register::ra(), offset: I12::zero() },
        save_pc: 0x600004,
    };
    let code = emit_epilogue(&indices, jalr).unwrap();
    assert_eq!(code[63], Wasm::LocalGet(0));
    assert_eq!(code[75], Wasm::I32Const(0x600000));
    assert_eq!(emit_epilogue(&[], jalr), Err(TranslateError::NoBlocks));
    let branch = Termination::Branch { src1: Register::a0(), src2: Register::zero(), funct: BranchType::Equal, pc: 0x600000, else_pc: 0x600008 };
    let code = emit_epilogue(&indices, branch).unwrap();
    assert_eq!(&code[63..], &[
        Wasm::LocalGet(9),
        Wasm::I32Const(0),
        Wasm::I32Eq,
        Wasm::If(BlockTy::Function(0)),
        Wasm::ReturnCall(5),
        Wasm::Else,
        Wasm::ReturnCall(6),
        Wasm::End,
        Wasm::End,
    ]);
}

#[test]
fn discovers_blocks_at_targets_and_after_branches() {
    // addi a0, x0, 1; beq a0, x0, +8; addi a0, a0, 1; ret
    let code = words(&[0x0010_0513, 0x0005_0463, 0x0015_0513, 0x0000_8067]);
    let blocks = discover_blocks(0x600000, &code).unwrap();
    let starts: Vec<u32> = blocks.iter().map(|(a, _)| *a).collect();
    assert_eq!(starts, vec![0x600000, 0x600008, 0x60000c]);
    assert_eq!(blocks[0].1.body, vec![(0x600000, Instruction::decode(0x0010_0513).unwrap())]);
    assert_eq!(
        blocks[0].1.term,
        Termination::Branch { src1: Register::a0(), src2: Register::zero(), funct: BranchType::Equal, pc: 0x60000c, else_pc: 0x600008 }
    );
    assert_eq!(blocks[1].1.body.len(), 1);
    assert_eq!(blocks[1].1.term, Termination::JumpAndLink { dest: Register::zero(), pc: 0x60000c, save_pc: u32::MAX });
    assert!(blocks[2].1.body.is_empty());
    assert!(matches!(blocks[2].1.term, Termination::JumpAndLinkRegister { save_pc: 0x600010, .. }));
}

#[test]
fn block_discovery_errors() {
    assert_eq!(discover_blocks(0x1000, &[]).map(|b| b.len()), Err(TranslateError::NoBlocks));
    assert_eq!(discover_blocks(0x1000, &words(&[0x0010_0513])).map(|b| b.len()), Err(TranslateError::Unterminated(0x1000)));
    assert_eq!(discover_blocks(0x1000, &[0x13, 0x05]).map(|b| b.len()), Err(TranslateError::Truncated(0x1000)));
    assert_eq!(discover_blocks(0x1000, &words(&[0x0000_007f])).map(|b| b.len()), Err(TranslateError::Decode(0x1000)));
}

#[test]
fn float_compares_follow_the_rounding_field() {
    let fle = Instruction::decode(0xA2B5_0553).unwrap(); // fle.d a0, fa0, fa1
    assert_eq!(
        emit_instruction(0, fle),
        Ok(vec![Wasm::LocalGet(41), Wasm::LocalGet(42), Wasm::F64Le, Wasm::LocalSet(9)])
    );
    let flt = Instruction::decode(0xA2B5_1553).unwrap(); // flt.d a0, fa0, fa1
    assert_eq!(
        emit_instruction(0, flt),
        Ok(vec![Wasm::LocalGet(41), Wasm::LocalGet(42), Wasm::F64Lt, Wasm::LocalSet(9)])
    );
    let feq = Instruction::decode(0xA2B5_2553).unwrap(); // feq.d a0, fa0, fa1
    assert_eq!(
        emit_instruction(0, feq),
        Ok(vec![Wasm::LocalGet(41), Wasm::LocalGet(42), Wasm::F64Eq, Wasm::LocalSet(9)])
    );
    let fle_s = emit_instruction(0, Instruction::decode(0xA0B5_0553).unwrap()).unwrap(); // fle.s
    assert_eq!(fle_s[fle_s.len() - 2], Wasm::F32Le);
    let feq_s = emit_instruction(0, Instruction::decode(0xA0B5_2553).unwrap()).unwrap(); // feq.s
    assert_eq!(feq_s[feq_s.len() - 2], Wasm::F32Eq);
}

#[test]
fn layout_numbers_blocks_and_fills_the_table() {
    // addi a0, x0, 1; beq a0, x0, +8; addi a0, a0, 1; ret
    let code = words(&[0x0010_0513, 0x0005_0463, 0x0015_0513, 0x0000_8067]);
    let blocks = discover_blocks(0x600000, &code).unwrap();
    let layout = module_layout(&blocks, 2).unwrap();
    assert_eq!(layout.indices, vec![(0x600000, 5), (0x600008, 6), (0x60000c, 7)]);
    assert_eq!(layout.table, vec![5, 3, 3, 3, 6, 3, 7]);
    assert_eq!(module_layout(&[], 2).map(|l| l.table), Err(TranslateError::NoBlocks));
    let elsewhere = discover_blocks(0x1000, &code).unwrap();
    assert_eq!(module_layout(&elsewhere, 2).map(|l| l.table), Err(TranslateError::MisplacedCode(0x1000)));
}

fn symbol(name: &str, kind: u8, address: u64) -> ElfSymbol {
    ElfSymbol { name: Some(name.as_bytes().to_vec()), kind, address }
}

#[test]
fn exports_keep_the_first_symbol_of_each_name() {
    let indices = [(0x600000, 5), (0x600008, 6)];
    let syms = vec![
        ElfSymbol { name: Some(vec![]), kind: 0, address: 0 },
        symbol("main", 2, 0x600008),
        symbol("table", 1, 0x1234),
        symbol("main", 2, 0x600000),
        symbol("table", 1, 0x9999),
        symbol("other", 0, 0x10),
    ];
    let out = exports(&syms, &indices).unwrap();
    let got: Vec<(Vec<u8>, ExportTarget)> = out.into_iter().map(|e| (e.name, e.target)).collect();
    assert_eq!(
        got,
        vec![
            (b"main".to_vec(), ExportTarget::Func(6)),
            (b"table".to_vec(), ExportTarget::Global { index: 0, value: 0x1234 }),
            (b"other".to_vec(), ExportTarget::Global { index: 1, value: 0x10 }),
        ]
    );
    let bad = [symbol("f", 2, 0x600004)];
    assert_eq!(exports(&bad, &indices).map(|v| v.len()), Err(TranslateError::NotABlockStart(0x600004)));
    let far = [symbol("g", 1, 0x1_0000_0000)];
    assert_eq!(exports(&far, &indices).map(|v| v.len()), Err(TranslateError::AddressTooLarge(0x1_0000_0000)));
    let unnamed = [ElfSymbol { name: None, kind: 1, address: 0 }];
    assert_eq!(exports(&unnamed, &indices).map(|v| v.len()), Err(TranslateError::BadSymbolName));
    let not_utf8 = [ElfSymbol { name: Some(vec![0xff]), kind: 1, address: 0 }];
    assert_eq!(exports(&not_utf8, &indices).map(|v| v.len()), Err(TranslateError::BadSymbolName));
}

fn section(name: &str, address: u64, data: Option<Vec<u8>>) -> ElfSection {
    ElfSection { flags: 6, name: Some(name.to_string()), address, size: 0, data }
}

#[test]
fn code_region_is_the_first_text_section() {
    let img = ElfImage {
        machine: 243,
        sections: vec![section(".data", 0x100, Some(vec![1])), section(".text", 0x600000, Some(vec![1, 2])), section(".text", 0, None)],
        symbols: vec![],
    };
    assert_eq!(code_region(&img), Ok((0x600000, &[1u8, 2][..])));
    let none = ElfImage { machine: 243, sections: vec![section(".data", 0, None)], symbols: vec![] };
    assert_eq!(code_region(&none), Err(TranslateError::NoText));
    let unreadable = ElfImage { machine: 243, sections: vec![section(".text", 0, None)], symbols: vec![] };
    assert_eq!(code_region(&unreadable), Err(TranslateError::UnreadableText));
    let high = ElfImage { machine: 243, sections: vec![section(".text", 0xffff_ffff, Some(vec![0]))], symbols: vec![] };
    assert_eq!(code_region(&high), Err(TranslateError::TextTooLarge));
}

#[test]
fn assembled_module_has_every_section() {
    // addi a0, x0, 1; beq a0, x0, +8; addi a0, a0, 1; ret
    let code = words(&[0x0010_0513, 0x0005_0463, 0x0015_0513, 0x0000_8067]);
    let blocks = discover_blocks(0x600000, &code).unwrap();
    let syms = vec![symbol("main", 2, 0x600000), symbol("data", 1, 0x1234)];
    let m = assemble_module(&blocks, &syms).unwrap();
    assert_eq!(m.types.len(), 3);
    assert_eq!(m.types[0].params.len(), 63);
    assert_eq!(m.types[0].params[30], ValType::I32);
    assert_eq!(m.types[0].params[31], ValType::F64);
    assert_eq!(m.types[2].params.len(), 64);
    assert_eq!(m.types[2].params[63], ValType::I32);
    assert!(m.types[1].params.is_empty() && m.types[1].results.is_empty());
    assert_eq!((m.imports[0].module, m.imports[0].name), ("sys", "ebreak"));
    assert_eq!((m.imports[1].module, m.imports[1].name), ("sys", "ecall"));
    assert_eq!(m.functions, vec![1, 0, 0, 0, 0, 0]);
    assert_eq!(m.table, vec![5, 3, 3, 3, 6, 3, 7]);
    assert_eq!(m.globals, vec![0x1234]);
    assert_eq!(m.exports.len(), 2);
    assert_eq!(m.exports[0].target, ExportTarget::Func(5));
    assert_eq!(m.start, 2);
    assert_eq!(m.code.len(), 6);
    assert_eq!(m.code[0].code, vec![Wasm::End]);
    assert!(m.code[0].locals.is_empty());
    assert_eq!(m.code[1].code, vec![Wasm::Unreachable, Wasm::End]);
    assert_eq!(m.code[1].locals, vec![(31, ValType::I32), (32, ValType::F64)]);
    // the first block starts with `addi a0, x0, 1`
    assert_eq!(&m.code[3].code[..4], &[Wasm::I32Const(0), Wasm::I32Const(1), Wasm::I32Add, Wasm::LocalSet(9)]);
    assert_eq!(*m.code[3].code.last().unwrap(), Wasm::End);
    let odd = discover_blocks(0x600001, &code).unwrap();
    assert_eq!(assemble_module(&odd, &syms).map(|m| m.start), Err(TranslateError::BadBlockList));
}

#[test]
fn build_module_starts_from_the_image() {
    let code = words(&[0x0010_0513, 0x0005_0463, 0x0015_0513, 0x0000_8067]);
    let img = ElfImage {
        machine: 243,
        sections: vec![section(".text", 0x600000, Some(code))],
        symbols: vec![symbol("main", 2, 0x600000)],
    };
    let m = build_module(&img).unwrap();
    assert_eq!(m.table, vec![5, 3, 3, 3, 6, 3, 7]);
    let none = ElfImage { machine: 243, sections: vec![], symbols: vec![] };
    assert_eq!(build_module(&none).map(|m| m.start), Err(TranslateError::NoText));
    let open = ElfImage { machine: 243, sections: vec![section(".text", 0x600000, Some(words(&[0x0010_0513])))], symbols: vec![] };
    assert_eq!(build_module(&open).map(|m| m.start), Err(TranslateError::Unterminated(0x600000)));
    assert_eq!(translate_elf(b"garbage").map(|m| m.start), Err(TranslateError::NotAnElf));
}

#[test]
fn blocks_are_well_formed_but_a_backward_jump_can_split_a_collected_body() {
    // addi a0, a0, 1; addi a0, a0, 1; j .-4
    let code = words(&[0x0015_0513, 0x0015_0513, 0xffdf_f06f]);
    let blocks = discover_blocks(0x600000, &code).unwrap();
    let starts: Vec<u32> = blocks.iter().map(|(a, _)| *a).collect();
    assert_eq!(starts, vec![0x600000, 0x600004]);
    // no body holds a jump, and the jump's target starts a block
    assert!(blocks.iter().all(|(_, b)| b.body.iter().all(|(_, i)| !matches!(i, Instruction::JumpAndLink(_)))));
    assert_eq!(blocks[1].1.term, Termination::JumpAndLink { dest: Register::zero(), pc: 0x600004, save_pc: 0x60000c });
    // the first body was collected before the target was known: it runs on
    // past the start of the second block
    assert_eq!(blocks[0].1.body.len(), 2);
    assert_eq!(blocks[0].1.body[1].0, 0x600004);
}
