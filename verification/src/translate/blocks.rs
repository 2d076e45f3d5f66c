use vstd::prelude::*;

use crate::instr::{
    Instruction, JumpAndLink, Branch, Register, spec_decode, spec_decode_compressed,
    is_lwsp_without_dest,
};
use super::TranslateError;
use super::epilogue::Termination;

verus! {

/// A block of straight-line code: its instructions with their addresses,
/// and how it ends.
#[derive(Debug)]
pub struct Block {
    pub body: Vec<(u32, Instruction)>,
    pub term: Termination,
}

/// A block being collected: its instructions so far, and its end once one
/// is met.
pub type Pending = (Seq<(u32, Instruction)>, Option<Termination>);

/// The instruction at `pc` of code `data` loaded at `base`, and its size.
pub open spec fn fetch_at(data: Seq<u8>, base: u32, pc: u32) -> Result<(Instruction, u32), TranslateError> {
    let p = pc - base;
    if data[p] & 3 != 3 {
        if p + 2 > data.len() {
            Err(TranslateError::Truncated(pc))
        } else {
            let h = (data[p] + 256 * data[p + 1]) as u16;
            if is_lwsp_without_dest(h) {
                Err(TranslateError::Decode(pc))
            } else {
                match spec_decode_compressed(h) {
                    Ok(i) => Ok((i, 2)),
                    Err(_) => Err(TranslateError::Decode(pc)),
                }
            }
        }
    } else if p + 4 > data.len() {
        Err(TranslateError::Truncated(pc))
    } else {
        let w = (data[p] + 256 * data[p + 1] + 0x10000 * data[p + 2] + 0x1000000 * data[p + 3]) as u32;
        match spec_decode(w) {
            Ok(i) => Ok((i, 4)),
            Err(_) => Err(TranslateError::Decode(pc)),
        }
    }
}

/// `m` with an empty block at `k`, unless one starts there.
pub open spec fn ensure(m: Map<u32, Pending>, k: u32) -> Map<u32, Pending> {
    if m.contains_key(k) {
        m
    } else {
        m.insert(k, (Seq::empty(), None))
    }
}

/// Whether `k` is the last block start of `m` at or before `pc`.
pub open spec fn is_floor(m: Map<u32, Pending>, pc: u32, k: u32) -> bool {
    &&& m.contains_key(k)
    &&& k <= pc
    &&& forall|j: u32| m.contains_key(j) && j <= pc ==> j <= k
}

/// The last block start of `m` at or before `pc`.
pub open spec fn floor(m: Map<u32, Pending>, pc: u32) -> u32 {
    choose|k: u32| is_floor(m, pc, k)
}

/// `pc + d`, wrapping around the address space.
pub open spec fn wrap_add(pc: u32, d: int) -> u32 {
    ((pc + d) % 0x1_0000_0000) as u32
}

/// The target of a jump or branch at `pc`, if `instr` is one with a
/// known target.
pub open spec fn target(pc: u32, instr: Instruction) -> Option<u32> {
    match instr {
        Instruction::JumpAndLink(j) => Some(wrap_add(pc, j.offset@ as int)),
        Instruction::Branch(b) => Some(wrap_add(pc, b.offset@ as int)),
        _ => None,
    }
}

/// One step of the sweep over the code: the instruction `instr` of `size`
/// bytes at `pc`, with the blocks `m`.  A jump or branch starts a block at
/// its target; the instruction joins the last block that starts at or
/// before it, as its end if it ends blocks.  Gives the blocks after it and
/// whether a block ended.
pub open spec fn step(m: Map<u32, Pending>, pc: u32, instr: Instruction, size: u32) -> (Map<u32, Pending>, bool) {
    let m1 = match target(pc, instr) {
        Some(t) => ensure(m, t),
        None => m,
    };
    let cur = floor(m1, pc);
    let body = m1[cur].0;
    let after = wrap_add(pc, size as int);
    match instr {
        Instruction::JumpAndLink(j) => (
            m1.insert(cur, (body, Some(Termination::JumpAndLink { dest: j.dest, pc: wrap_add(pc, j.offset@ as int), save_pc: after }))),
            true,
        ),
        Instruction::Branch(b) => (
            m1.insert(cur, (body, Some(Termination::Branch { src1: b.src1, src2: b.src2, funct: b.funct, pc: wrap_add(pc, b.offset@ as int), else_pc: u32::MAX }))),
            true,
        ),
        Instruction::JumpAndLinkRegister(j) => (
            m1.insert(cur, (body, Some(Termination::JumpAndLinkRegister { jalr: j, save_pc: after }))),
            true,
        ),
        _ => (m1.insert(cur, (body.push((pc, instr)), m1[cur].1)), false),
    }
}

/// The sweep over the code `data` loaded at `base`, from `pc` on, with the
/// blocks `m` found so far; `terminated` when the last instruction ended a
/// block, so that a new one starts at `pc`.
pub open spec fn sweep(data: Seq<u8>, base: u32, pc: u32, m: Map<u32, Pending>, terminated: bool) -> Result<Map<u32, Pending>, TranslateError>
    decreases data.len() - (pc - base),
{
    if pc < base || pc - base >= data.len() || base + data.len() >= 0x1_0000_0000 {
        Ok(m)
    } else {
        let m0 = if terminated {
            ensure(m, pc)
        } else {
            m
        };
        match fetch_at(data, base, pc) {
            Err(e) => Err(e),
            Ok((instr, size)) => {
                let (m1, t) = step(m0, pc, instr, size);
                if size == 2 || size == 4 {
                    sweep(data, base, (pc + size) as u32, m1, t)
                } else {
                    Ok(m1)
                }
            },
        }
    }
}

/// How a block ends once the next block starts at `next`: a block without
/// an end of its own jumps there, and a branch falls through to it.
pub open spec fn fill(term: Option<Termination>, next: u32) -> Termination {
    match term {
        None => Termination::JumpAndLink { dest: Register::from_index(0), pc: next, save_pc: u32::MAX },
        Some(Termination::Branch { src1, src2, funct, pc, else_pc }) => if else_pc == u32::MAX {
            Termination::Branch { src1, src2, funct, pc, else_pc: next }
        } else {
            Termination::Branch { src1, src2, funct, pc, else_pc }
        },
        Some(t) => t,
    }
}

/// Whether `blocks` lists the blocks of `m` by increasing address, each
/// with its instructions and its end (filled in from the next block).
pub open spec fn listed(m: Map<u32, Pending>, blocks: Seq<(u32, Block)>) -> bool {
    &&& forall|i: int, j: int| 0 <= i < j < blocks.len() ==> blocks[i].0 < blocks[j].0
    &&& forall|k: u32| m.contains_key(k) <==> exists|i: int| 0 <= i < blocks.len() && blocks[i].0 == k
    &&& forall|i: int| #![trigger blocks[i]] 0 <= i < blocks.len() ==> {
        let k = blocks[i].0;
        &&& blocks[i].1.body@ == m[k].0
        &&& i + 1 < blocks.len() ==> blocks[i].1.term == fill(m[k].1, blocks[i + 1].0)
        &&& i + 1 == blocks.len() ==> m[k].1 == Some(blocks[i].1.term)
    }
}

/// Whether the last block of `m` has no end.
pub open spec fn last_open(m: Map<u32, Pending>) -> bool {
    m[floor(m, u32::MAX)].1 is None
}

/// The blocks being collected: their starts in increasing order, each
/// with its slot, and per slot its instructions and its end.
struct Table {
    keys: Vec<(u32, usize)>,
    bodies: Vec<Vec<(u32, Instruction)>>,
    terms: Vec<Option<Termination>>,
}

impl Table {
    /// The table holds the blocks `m`.
    spec fn holds(&self, m: Map<u32, Pending>) -> bool {
        &&& self.bodies@.len() == self.terms@.len()
        &&& self.keys@.len() == self.bodies@.len()
        &&& forall|i: int, j: int| 0 <= i < j < self.keys@.len() ==> self.keys@[i].0 < self.keys@[j].0
        &&& forall|i: int| 0 <= i < self.keys@.len() ==> self.keys@[i].1 < self.bodies@.len()
        &&& forall|i: int, j: int|
            0 <= i < self.keys@.len() && 0 <= j < self.keys@.len() && i != j ==> self.keys@[i].1
                != self.keys@[j].1
        &&& forall|i: int| #![trigger self.keys@[i]]
            0 <= i < self.keys@.len() ==> m.contains_key(self.keys@[i].0) && m[self.keys@[i].0] == (
                self.bodies@[self.keys@[i].1 as int]@,
                self.terms@[self.keys@[i].1 as int],
            )
        &&& forall|k: u32| m.contains_key(k) ==> exists|i: int| 0 <= i < self.keys@.len() && self.keys@[i].0 == k
    }

    /// The first position whose block starts at or after `k`.
    fn lower_bound(&self, k: u32) -> (r: usize)
        requires
            forall|i: int, j: int| 0 <= i < j < self.keys@.len() ==> self.keys@[i].0 < self.keys@[j].0,
        ensures
            r <= self.keys@.len(),
            forall|i: int| 0 <= i < r ==> self.keys@[i].0 < k,
            forall|i: int| r <= i < self.keys@.len() ==> self.keys@[i].0 >= k,
    {
        let mut lo: usize = 0;
        let mut hi: usize = self.keys.len();
        while lo < hi
            invariant
                lo <= hi <= self.keys@.len(),
                forall|i: int, j: int| 0 <= i < j < self.keys@.len() ==> self.keys@[i].0 < self.keys@[j].0,
                forall|i: int| 0 <= i < lo ==> self.keys@[i].0 < k,
                forall|i: int| hi <= i < self.keys@.len() ==> self.keys@[i].0 >= k,
            decreases hi - lo,
        {
            let mid = lo + (hi - lo) / 2;
            if self.keys[mid].0 < k {
                lo = mid + 1;
            } else {
                hi = mid;
            }
        }
        lo
    }

    /// The first position whose block starts after `pc`.
    fn upper_bound(&self, pc: u32) -> (r: usize)
        requires
            forall|i: int, j: int| 0 <= i < j < self.keys@.len() ==> self.keys@[i].0 < self.keys@[j].0,
        ensures
            r <= self.keys@.len(),
            forall|i: int| 0 <= i < r ==> self.keys@[i].0 <= pc,
            forall|i: int| r <= i < self.keys@.len() ==> self.keys@[i].0 > pc,
    {
        let mut lo: usize = 0;
        let mut hi: usize = self.keys.len();
        while lo < hi
            invariant
                lo <= hi <= self.keys@.len(),
                forall|i: int, j: int| 0 <= i < j < self.keys@.len() ==> self.keys@[i].0 < self.keys@[j].0,
                forall|i: int| 0 <= i < lo ==> self.keys@[i].0 <= pc,
                forall|i: int| hi <= i < self.keys@.len() ==> self.keys@[i].0 > pc,
            decreases hi - lo,
        {
            let mid = lo + (hi - lo) / 2;
            if self.keys[mid].0 <= pc {
                lo = mid + 1;
            } else {
                hi = mid;
            }
        }
        lo
    }

    /// Starts an empty block at `k`, unless one starts there.
    fn ensure(&mut self, k: u32, Ghost(m): Ghost<Map<u32, Pending>>)
        requires
            old(self).holds(m),
        ensures
            final(self).holds(ensure(m, k)),
    {
        let i = self.lower_bound(k);
        if i < self.keys.len() && self.keys[i].0 == k {
            return;
        }
        let slot = self.bodies.len();
        self.bodies.push(Vec::new());
        self.terms.push(None);
        let ghost old_keys = self.keys@;
        self.keys.insert(i, (k, slot));
        let ghost n = ensure(m, k);
        proof {
            assert(!m.contains_key(k)) by {
                if m.contains_key(k) {
                    let j = choose|j: int| 0 <= j < old_keys.len() && old_keys[j].0 == k;
                    if j < i {
                    } else {
                    }
                }
            }
            assert forall|j: int| 0 <= j < self.keys@.len() implies n.contains_key(self.keys@[j].0)
                && n[self.keys@[j].0] == (
                self.bodies@[self.keys@[j].1 as int]@,
                self.terms@[self.keys@[j].1 as int],
            ) by {
                if j < i {
                    assert(self.keys@[j] == old_keys[j]);
                } else if j > i {
                    assert(self.keys@[j] == old_keys[j - 1]);
                }
            }
            assert forall|q: u32| n.contains_key(q) implies exists|j: int|
                0 <= j < self.keys@.len() && self.keys@[j].0 == q by {
                if q == k {
                    assert(self.keys@[i as int].0 == k);
                } else {
                    let j = choose|j: int| 0 <= j < old_keys.len() && old_keys[j].0 == q;
                    if j < i {
                        assert(self.keys@[j].0 == q);
                    } else {
                        assert(self.keys@[j + 1].0 == q);
                    }
                }
            }
            assert forall|a: int, b: int| 0 <= a < b < self.keys@.len() implies self.keys@[a].0
                < self.keys@[b].0 by {
                if a < i && b < i {
                } else if a < i && b == i {
                } else if a < i {
                    assert(self.keys@[b] == old_keys[b - 1]);
                } else if a == i {
                    assert(self.keys@[b] == old_keys[b - 1]);
                } else {
                    assert(self.keys@[a] == old_keys[a - 1]);
                    assert(self.keys@[b] == old_keys[b - 1]);
                }
            }
            assert forall|a: int, b: int|
                0 <= a < self.keys@.len() && 0 <= b < self.keys@.len() && a != b implies self.keys@[a].1
                != self.keys@[b].1 by {
                if a != i && b != i {
                    let oa = if a < i { a } else { a - 1 };
                    let ob = if b < i { b } else { b - 1 };
                    assert(self.keys@[a] == old_keys[oa]);
                    assert(self.keys@[b] == old_keys[ob]);
                } else if a == i {
                    let ob = if b < i { b } else { b - 1 };
                    assert(self.keys@[b] == old_keys[ob]);
                } else {
                    let oa = if a < i { a } else { a - 1 };
                    assert(self.keys@[a] == old_keys[oa]);
                }
            }
            assert forall|j: int| 0 <= j < self.keys@.len() implies self.keys@[j].1 < self.bodies@.len() by {
                if j < i {
                    assert(self.keys@[j] == old_keys[j]);
                } else if j > i {
                    assert(self.keys@[j] == old_keys[j - 1]);
                }
            }
        }
    }
}

impl Table {
    /// The position of the last block that starts at or before `pc`, where
    /// one does.
    fn floor_position(&self, pc: u32, Ghost(m): Ghost<Map<u32, Pending>>, Ghost(low): Ghost<u32>) -> (r: usize)
        requires
            self.holds(m),
            m.contains_key(low),
            low <= pc,
        ensures
            r < self.keys@.len(),
            self.keys@[r as int].0 == floor(m, pc),
            is_floor(m, pc, floor(m, pc)),
    {
        let ub = self.upper_bound(pc);
        proof {
            let q = choose|q: int| 0 <= q < self.keys@.len() && self.keys@[q].0 == low;
            assert(q < ub);
        }
        let r = ub - 1;
        proof {
            let k = self.keys@[r as int].0;
            assert(m.contains_key(self.keys@[r as int].0));
            assert forall|j: u32| m.contains_key(j) && j <= pc implies j <= k by {
                let q = choose|q: int| 0 <= q < self.keys@.len() && self.keys@[q].0 == j;
                assert(q < ub);
                if q < r {
                }
            }
            assert(is_floor(m, pc, k));
            let f = floor(m, pc);
            assert(is_floor(m, pc, f));
            assert(f <= k && k <= f);
        }
        r
    }

    /// Ends the block at position `pos` with `term`.
    fn set_term(&mut self, pos: usize, term: Termination, Ghost(m): Ghost<Map<u32, Pending>>)
        requires
            old(self).holds(m),
            pos < old(self).keys@.len(),
        ensures
            final(self).keys@ == old(self).keys@,
            final(self).holds(
                m.insert(old(self).keys@[pos as int].0, (m[old(self).keys@[pos as int].0].0, Some(term))),
            ),
    {
        let slot = self.keys[pos].1;
        self.terms.set(slot, Some(term));
        let ghost k = self.keys@[pos as int].0;
        let ghost n = m.insert(k, (m[k].0, Some(term)));
        assert forall|j: int| #![trigger self.keys@[j]] 0 <= j < self.keys@.len() implies n.contains_key(self.keys@[j].0) && n[self.keys@[j].0] == (
            self.bodies@[self.keys@[j].1 as int]@,
            self.terms@[self.keys@[j].1 as int],
        ) by {
            if j != pos {
                assert(self.keys@[j].0 != k);
            }
        }
    }

    /// Adds `(pc, instr)` to the block at position `pos`.
    fn push_instruction(&mut self, pos: usize, pc: u32, instr: Instruction, Ghost(m): Ghost<Map<u32, Pending>>)
        requires
            old(self).holds(m),
            pos < old(self).keys@.len(),
        ensures
            final(self).keys@ == old(self).keys@,
            final(self).holds(
                m.insert(
                    old(self).keys@[pos as int].0,
                    (m[old(self).keys@[pos as int].0].0.push((pc, instr)), m[old(self).keys@[pos as int].0].1),
                ),
            ),
    {
        let slot = self.keys[pos].1;
        self.bodies[slot].push((pc, instr));
        let ghost k = self.keys@[pos as int].0;
        let ghost n = m.insert(k, (m[k].0.push((pc, instr)), m[k].1));
        assert forall|j: int| #![trigger self.keys@[j]] 0 <= j < self.keys@.len() implies n.contains_key(self.keys@[j].0) && n[self.keys@[j].0] == (
            self.bodies@[self.keys@[j].1 as int]@,
            self.terms@[self.keys@[j].1 as int],
        ) by {
            if j != pos {
                assert(self.keys@[j].0 != k);
            }
        }
    }
}

/// The instruction at `pc` and its size (see `fetch_at`).
fn fetch(data: &[u8], base: u32, pc: u32) -> (r: Result<(Instruction, u32), TranslateError>)
    requires
        base <= pc,
        pc - base < data@.len(),
    ensures
        r == fetch_at(data@, base, pc),
{
    let p = (pc - base) as usize;
    if data[p] & 3 != 3 {
        if data.len() - p < 2 {
            return Err(TranslateError::Truncated(pc));
        }
        let h = data[p] as u16 + (data[p + 1] as u16) * 256;
        if h & 3 == 2 && h >> 13 == 2 && (h >> 7) & 31 == 0 {
            return Err(TranslateError::Decode(pc));
        }
        match Instruction::decode_compressed(h) {
            Ok(i) => Ok((i, 2)),
            Err(_) => Err(TranslateError::Decode(pc)),
        }
    } else {
        if data.len() - p < 4 {
            return Err(TranslateError::Truncated(pc));
        }
        let w = data[p] as u32 + (data[p + 1] as u32) * 0x100 + (data[p + 2] as u32) * 0x10000
            + (data[p + 3] as u32) * 0x1000000;
        match Instruction::decode(w) {
            Ok(i) => Ok((i, 4)),
            Err(_) => Err(TranslateError::Decode(pc)),
        }
    }
}

impl Table {
    /// Records the instruction `instr` of `size` bytes at `pc` (see
    /// `step`); gives whether it ended a block.
    fn record(&mut self, pc: u32, instr: Instruction, size: u32, Ghost(m): Ghost<Map<u32, Pending>>, Ghost(low): Ghost<u32>) -> (ended: bool)
        requires
            old(self).holds(m),
            m.contains_key(low),
            low <= pc,
        ensures
            final(self).holds(step(m, pc, instr, size).0),
            ended == step(m, pc, instr, size).1,
            step(m, pc, instr, size).0.contains_key(low),
    {
        let ghost mut g = m;
        let tgt = match instr {
            Instruction::JumpAndLink(JumpAndLink { offset, .. }) => Some(pc.wrapping_add_signed(i32::from(offset))),
            Instruction::Branch(Branch { offset, .. }) => Some(pc.wrapping_add_signed(i16::from(offset) as i32)),
            _ => None,
        };
        assert(tgt == target(pc, instr));
        if let Some(tg) = tgt {
            self.ensure(tg, Ghost(g));
            proof {
                g = ensure(g, tg);
            }
        }
        let pos = self.floor_position(pc, Ghost(g), Ghost(low));
        let after = pc.wrapping_add(size);
        let ghost cur = floor(g, pc);
        match instr {
            Instruction::JumpAndLink(j) => {
                self.set_term(pos, Termination::JumpAndLink { dest: j.dest, pc: tgt.unwrap(), save_pc: after }, Ghost(g));
                true
            },
            Instruction::Branch(b) => {
                let term = Termination::Branch { src1: b.src1, src2: b.src2, funct: b.funct, pc: tgt.unwrap(), else_pc: u32::MAX };
                self.set_term(pos, term, Ghost(g));
                true
            },
            Instruction::JumpAndLinkRegister(j) => {
                self.set_term(pos, Termination::JumpAndLinkRegister { jalr: j, save_pc: after }, Ghost(g));
                true
            },
            _ => {
                self.push_instruction(pos, pc, instr, Ghost(g));
                false
            },
        }
    }
}

/// Splits the code `data`, loaded at `base`, into blocks by a linear
/// sweep: a block starts at the beginning, after every jump, branch and
/// indirect jump, and at every jump and branch target; each instruction
/// joins the last block that starts at or before it.  Blocks come out by
/// increasing address; a block that runs into the next jumps to it, and a
/// branch falls through to the next block.
pub fn discover_blocks(base: u32, data: &[u8]) -> (r: Result<Vec<(u32, Block)>, TranslateError>)
    requires
        base + data@.len() < 0x1_0000_0000,
    ensures
        match sweep(data@, base, base, Map::empty(), true) {
            Err(e) => r == Err::<Vec<(u32, Block)>, TranslateError>(e),
            Ok(m) => if m.dom() == Set::<u32>::empty() {
                r == Err::<Vec<(u32, Block)>, TranslateError>(TranslateError::NoBlocks)
            } else if last_open(m) {
                r == Err::<Vec<(u32, Block)>, TranslateError>(
                    TranslateError::Unterminated(floor(m, u32::MAX)),
                )
            } else {
                r matches Ok(v) && listed(m, v@)
            },
        },
{
    let mut t = Table { keys: Vec::new(), bodies: Vec::new(), terms: Vec::new() };
    let ghost mut m: Map<u32, Pending> = Map::empty();
    let mut pc = base;
    let mut terminated = true;
    while ((pc - base) as usize) < data.len()
        invariant
            base + data@.len() < 0x1_0000_0000,
            base <= pc <= base + data@.len(),
            t.holds(m),
            pc == base ==> terminated,
            pc > base ==> m.contains_key(base),
            sweep(data@, base, base, Map::empty(), true) == sweep(data@, base, pc, m, terminated),
        decreases data@.len() - (pc - base),
    {
        let ghost m_before = m;
        if terminated {
            t.ensure(pc, Ghost(m));
            proof {
                m = ensure(m, pc);
            }
        }
        let (instr, size) = fetch(data, base, pc)?;
        let ghost m0 = m;
        terminated = t.record(pc, instr, size, Ghost(m0), Ghost(base));
        proof {
            m = step(m0, pc, instr, size).0;
        }
        pc = pc + size;
    }
    finish(t, Ghost(m))
}

/// Lists the blocks of the table in address order, filling in their ends.
fn finish(t: Table, Ghost(m): Ghost<Map<u32, Pending>>) -> (r: Result<Vec<(u32, Block)>, TranslateError>)
    requires
        t.holds(m),
    ensures
        if m.dom() == Set::<u32>::empty() {
            r == Err::<Vec<(u32, Block)>, TranslateError>(TranslateError::NoBlocks)
        } else if last_open(m) {
            r == Err::<Vec<(u32, Block)>, TranslateError>(TranslateError::Unterminated(floor(m, u32::MAX)))
        } else {
            r matches Ok(v) && listed(m, v@)
        },
{
    let mut t = t;
    let n = t.keys.len();
    if n == 0 {
        assert(m.dom() =~= Set::<u32>::empty()) by {
            assert forall|k: u32| !m.contains_key(k) by {
                if m.contains_key(k) {
                    let q = choose|q: int| 0 <= q < t.keys@.len() && t.keys@[q].0 == k;
                }
            }
        }
        return Err(TranslateError::NoBlocks);
    }
    let last = t.keys[n - 1];
    proof {
        assert(m.contains_key(last.0));
        assert(!(m.dom() =~= Set::<u32>::empty()));
        assert forall|j: u32| m.contains_key(j) && j <= u32::MAX implies j <= last.0 by {
            let q = choose|q: int| 0 <= q < t.keys@.len() && t.keys@[q].0 == j;
            if q < n - 1 {
            }
        }
        assert(is_floor(m, u32::MAX, last.0));
        let f = floor(m, u32::MAX);
        assert(is_floor(m, u32::MAX, f));
        assert(f == last.0);
    }
    if t.terms[last.1].is_none() {
        return Err(TranslateError::Unterminated(last.0));
    }
    let ghost keys0 = t.keys@;
    let ghost bodies0 = t.bodies@;
    let mut out: Vec<(u32, Block)> = Vec::new();
    let mut i: usize = 0;
    while i < n
        invariant
            0 < n == t.keys@.len(),
            i <= n,
            t.keys@ == keys0,
            t.terms@.len() == t.bodies@.len() == n,
            t.holds(m) || true,
            forall|a: int, b: int| 0 <= a < b < n ==> keys0[a].0 < keys0[b].0,
            forall|a: int| 0 <= a < n ==> keys0[a].1 < n,
            forall|a: int, b: int| 0 <= a < n && 0 <= b < n && a != b ==> keys0[a].1 != keys0[b].1,
            forall|a: int| #![trigger keys0[a]] i <= a < n ==> m.contains_key(keys0[a].0) && m[keys0[a].0] == (
                t.bodies@[keys0[a].1 as int]@,
                t.terms@[keys0[a].1 as int],
            ),
            forall|a: int| #![trigger keys0[a]] 0 <= a < n ==> m.contains_key(keys0[a].0) && m[keys0[a].0].1 == t.terms@[keys0[a].1 as int],
            m[keys0[n - 1].0].1 is Some,
            out@.len() == i,
            forall|a: int| #![trigger out@[a]] 0 <= a < i ==> {
                let k = out@[a].0;
                &&& k == keys0[a].0
                &&& out@[a].1.body@ == m[k].0
                &&& a + 1 < n ==> out@[a].1.term == fill(m[k].1, keys0[a + 1].0)
                &&& a + 1 == n ==> m[k].1 == Some(out@[a].1.term)
            },
        decreases n - i,
    {
        let (k, slot) = t.keys[i];
        let mut body: Vec<(u32, Instruction)> = Vec::new();
        std::mem::swap(&mut body, &mut t.bodies[slot]);
        let term = if i + 1 < n {
            let next = t.keys[i + 1].0;
            match t.terms[slot] {
                None => Termination::JumpAndLink { dest: Register::zero(), pc: next, save_pc: u32::MAX },
                Some(Termination::Branch { src1, src2, funct, pc, else_pc }) => {
                    if else_pc == u32::MAX {
                        Termination::Branch { src1, src2, funct, pc, else_pc: next }
                    } else {
                        Termination::Branch { src1, src2, funct, pc, else_pc }
                    }
                },
                Some(term) => term,
            }
        } else {
            match t.terms[slot] {
                Some(term) => term,
                None => {
                    return Err(TranslateError::Unterminated(k));
                },
            }
        };
        proof {
            broadcast use Register::lemma_view_injective, Register::lemma_from_index;
            assert(Register::from_index(0)@ == 0);
        }
        out.push((k, Block { body, term }));
        proof {
            assert forall|a: int| #![trigger keys0[a]] i + 1 <= a < n implies m.contains_key(keys0[a].0) && m[keys0[a].0] == (
                t.bodies@[keys0[a].1 as int]@,
                t.terms@[keys0[a].1 as int],
            ) by {
                assert(keys0[a].1 != keys0[i as int].1);
            }
        }
        i += 1;
    }
    proof {
        assert forall|k: u32| m.contains_key(k) <==> exists|a: int| 0 <= a < out@.len() && out@[a].0 == k by {
            if m.contains_key(k) {
                let q = choose|q: int| 0 <= q < t.keys@.len() && t.keys@[q].0 == k;
                assert(out@[q].0 == k);
            }
            if exists|a: int| 0 <= a < out@.len() && out@[a].0 == k {
                let a = choose|a: int| 0 <= a < out@.len() && out@[a].0 == k;
                assert(keys0[a].0 == k);
            }
        }
    }
    Ok(out)
}

/// Whether `instr` ends a block: a jump or a branch.
pub open spec fn is_jump(instr: Instruction) -> bool {
    instr is JumpAndLink || instr is JumpAndLinkRegister || instr is Branch
}

/// The address a block end jumps or branches to, where it names one.
pub open spec fn term_target(t: Termination) -> Option<u32> {
    match t {
        Termination::JumpAndLink { dest: _, pc, save_pc: _ } => Some(pc),
        Termination::Branch { src1: _, src2: _, funct: _, pc, else_pc: _ } => Some(pc),
        _ => None,
    }
}

/// Whether the blocks `m`, collected from code below `pc`, are well
/// formed: no jump or branch inside a body, the instructions of a body lie
/// at or after the block's start, below `pc`, by increasing address, and
/// every jump or branch that ends a block goes to the start of a block.
pub open spec fn collected(m: Map<u32, Pending>, pc: u32) -> bool {
    &&& forall|k: u32, i: int| m.contains_key(k) && 0 <= i < m[k].0.len()
        ==> !is_jump((#[trigger] m[k].0[i]).1) && k <= m[k].0[i].0 < pc
    &&& forall|k: u32, i: int, j: int| m.contains_key(k) && 0 <= i < j < m[k].0.len()
        ==> (#[trigger] m[k].0[i]).0 < (#[trigger] m[k].0[j]).0
    &&& forall|k: u32| #[trigger] m.contains_key(k) && m[k].1 is Some && term_target(m[k].1->0) is Some
        ==> m.contains_key(term_target(m[k].1->0)->0)
}

proof fn lemma_floor_exists(m: Map<u32, Pending>, pc: u32, j: u32)
    requires
        exists|k: u32| #[trigger] m.contains_key(k) && k <= j,
        j <= pc,
        forall|x: u32| j < x <= pc ==> !#[trigger] m.contains_key(x),
    ensures
        is_floor(m, pc, floor(m, pc)),
    decreases j,
{
    if m.contains_key(j) {
        assert(is_floor(m, pc, j));
    } else {
        let k = choose|k: u32| #[trigger] m.contains_key(k) && k <= j;
        assert(k < j);
        assert(m.contains_key(k) && k <= (j - 1) as u32);
        lemma_floor_exists(m, pc, (j - 1) as u32);
    }
}

proof fn lemma_fetch_size(data: Seq<u8>, base: u32, pc: u32)
    requires
        base <= pc,
        pc - base < data.len(),
        fetch_at(data, base, pc) is Ok,
    ensures
        ({
            let size = fetch_at(data, base, pc)->Ok_0.1;
            (size == 2 || size == 4) && pc - base + size <= data.len()
        }),
{
}

proof fn lemma_step_collects(m: Map<u32, Pending>, pc: u32, instr: Instruction, size: u32)
    requires
        collected(m, pc),
        exists|k: u32| #[trigger] m.contains_key(k) && k <= pc,
        pc + size < 0x1_0000_0000,
        size > 0,
    ensures
        collected(step(m, pc, instr, size).0, (pc + size) as u32),
        forall|x: u32| m.contains_key(x) ==> #[trigger] step(m, pc, instr, size).0.contains_key(x),
{
    let m1 = match target(pc, instr) {
        Some(t) => ensure(m, t),
        None => m,
    };
    let next = (pc + size) as u32;
    assert(wrap_add(pc, size as int) == next);
    assert forall|x: u32| m.contains_key(x) implies #[trigger] m1.contains_key(x) by {}
    assert(collected(m1, pc)) by {
        assert forall|k: u32| #[trigger] m1.contains_key(k) && m1[k].1 is Some && term_target(m1[k].1->0) is Some
            implies m1.contains_key(term_target(m1[k].1->0)->0) by {
            if m.contains_key(k) {
                assert(m1[k] == m[k]);
                assert(m.contains_key(term_target(m[k].1->0)->0));
            }
        }
        assert forall|k: u32, i: int| m1.contains_key(k) && 0 <= i < m1[k].0.len()
            implies !is_jump((#[trigger] m1[k].0[i]).1) && k <= m1[k].0[i].0 < pc by {
            if m.contains_key(k) {
                assert(m1[k] == m[k]);
                assert(m[k].0[i] == m1[k].0[i]);
            }
        }
        assert forall|k: u32, i: int, j: int| m1.contains_key(k) && 0 <= i < j < m1[k].0.len()
            implies (#[trigger] m1[k].0[i]).0 < (#[trigger] m1[k].0[j]).0 by {
            if m.contains_key(k) {
                assert(m1[k] == m[k]);
                assert(m[k].0[i] == m1[k].0[i] && m[k].0[j] == m1[k].0[j]);
            }
        }
    }
    let k0 = choose|k: u32| #[trigger] m.contains_key(k) && k <= pc;
    assert(m1.contains_key(k0) && k0 <= pc);
    lemma_floor_exists(m1, pc, pc);
    let cur = floor(m1, pc);
    let m2 = step(m, pc, instr, size).0;
    assert forall|x: u32| m.contains_key(x) implies #[trigger] m2.contains_key(x) by {
        assert(m1.contains_key(x));
    }
    if is_jump(instr) {
        assert(m2[cur].0 == m1[cur].0);
        assert forall|k: u32, i: int| m2.contains_key(k) && 0 <= i < m2[k].0.len()
            implies !is_jump((#[trigger] m2[k].0[i]).1) && k <= m2[k].0[i].0 < next by {
            assert(m2[k].0 == m1[k].0);
            assert(m1[k].0[i] == m2[k].0[i]);
        }
        assert forall|k: u32, i: int, j: int| m2.contains_key(k) && 0 <= i < j < m2[k].0.len()
            implies (#[trigger] m2[k].0[i]).0 < (#[trigger] m2[k].0[j]).0 by {
            assert(m2[k].0 == m1[k].0);
            assert(m1[k].0[i] == m2[k].0[i] && m1[k].0[j] == m2[k].0[j]);
        }
        assert forall|k: u32| #[trigger] m2.contains_key(k) && m2[k].1 is Some && term_target(m2[k].1->0) is Some
            implies m2.contains_key(term_target(m2[k].1->0)->0) by {
            if k != cur {
                assert(m2[k] == m1[k]);
                assert(m1.contains_key(term_target(m1[k].1->0)->0));
            } else {
                assert(m1.contains_key(target(pc, instr)->0) || instr is JumpAndLinkRegister);
            }
        }
    } else {
        let body = m1[cur].0;
        assert(m2[cur].0 == body.push((pc, instr)));
        assert forall|k: u32, i: int| m2.contains_key(k) && 0 <= i < m2[k].0.len()
            implies !is_jump((#[trigger] m2[k].0[i]).1) && k <= m2[k].0[i].0 < next by {
            if k != cur {
                assert(m2[k] == m1[k]);
                assert(m1[k].0[i] == m2[k].0[i]);
            } else if i < body.len() {
                assert(body[i] == m2[k].0[i]);
                assert(m1[k].0[i] == body[i]);
            }
        }
        assert forall|k: u32, i: int, j: int| m2.contains_key(k) && 0 <= i < j < m2[k].0.len()
            implies (#[trigger] m2[k].0[i]).0 < (#[trigger] m2[k].0[j]).0 by {
            if k != cur {
                assert(m2[k] == m1[k]);
                assert(m1[k].0[i] == m2[k].0[i] && m1[k].0[j] == m2[k].0[j]);
            } else {
                assert(m1[k].0[i] == body[i]);
                assert(body[i] == m2[k].0[i]);
                if j < body.len() {
                    assert(m1[k].0[j] == body[j]);
                    assert(body[j] == m2[k].0[j]);
                }
            }
        }
        assert forall|k: u32| #[trigger] m2.contains_key(k) && m2[k].1 is Some && term_target(m2[k].1->0) is Some
            implies m2.contains_key(term_target(m2[k].1->0)->0) by {
            assert(m2[k].1 == m1[k].1);
            assert(m1.contains_key(term_target(m1[k].1->0)->0));
        }
    }
}

proof fn lemma_sweep_collects(data: Seq<u8>, base: u32, pc: u32, m: Map<u32, Pending>, terminated: bool)
    requires
        base + data.len() < 0x1_0000_0000,
        base <= pc <= base + data.len(),
        collected(m, pc),
        terminated || exists|k: u32| #[trigger] m.contains_key(k) && k <= pc,
        sweep(data, base, pc, m, terminated) is Ok,
    ensures
        collected(sweep(data, base, pc, m, terminated)->Ok_0, (base + data.len()) as u32),
        forall|x: u32| m.contains_key(x) ==> #[trigger] sweep(data, base, pc, m, terminated)->Ok_0.contains_key(x),
        pc - base < data.len() && terminated ==> sweep(data, base, pc, m, terminated)->Ok_0.contains_key(pc),
    decreases data.len() - (pc - base),
{
    let end = (base + data.len()) as u32;
    if pc - base >= data.len() {
        assert forall|k: u32, i: int| m.contains_key(k) && 0 <= i < m[k].0.len()
            implies !is_jump((#[trigger] m[k].0[i]).1) && k <= m[k].0[i].0 < end by {}
    } else {
        let m0 = if terminated { ensure(m, pc) } else { m };
        assert(m0.contains_key(pc) || !terminated);
        assert(collected(m0, pc)) by {
            assert forall|k: u32, i: int| m0.contains_key(k) && 0 <= i < m0[k].0.len()
                implies !is_jump((#[trigger] m0[k].0[i]).1) && k <= m0[k].0[i].0 < pc by {
                if m.contains_key(k) {
                    assert(m0[k] == m[k]);
                    assert(m[k].0[i] == m0[k].0[i]);
                }
            }
            assert forall|k: u32, i: int, j: int| m0.contains_key(k) && 0 <= i < j < m0[k].0.len()
                implies (#[trigger] m0[k].0[i]).0 < (#[trigger] m0[k].0[j]).0 by {
                if m.contains_key(k) {
                    assert(m0[k] == m[k]);
                    assert(m[k].0[i] == m0[k].0[i] && m[k].0[j] == m0[k].0[j]);
                }
            }
            assert forall|k: u32| #[trigger] m0.contains_key(k) && m0[k].1 is Some && term_target(m0[k].1->0) is Some
                implies m0.contains_key(term_target(m0[k].1->0)->0) by {
                if m.contains_key(k) {
                    assert(m0[k] == m[k]);
                    assert(m.contains_key(term_target(m[k].1->0)->0));
                }
            }
        }
        if terminated {
            assert(m0.contains_key(pc) && pc <= pc);
        } else {
            let k = choose|k: u32| #[trigger] m.contains_key(k) && k <= pc;
            assert(m0.contains_key(k));
        }
        lemma_fetch_size(data, base, pc);
        let (instr, size) = fetch_at(data, base, pc)->Ok_0;
        lemma_step_collects(m0, pc, instr, size);
        let (m1, t) = step(m0, pc, instr, size);
        let next = (pc + size) as u32;
        assert(m1.contains_key(pc) || !terminated);
        if !t {
            let k = choose|k: u32| #[trigger] m0.contains_key(k) && k <= pc;
            assert(m1.contains_key(k) && k <= next);
        }
        assert(collected(m1, next));
        lemma_sweep_collects(data, base, next, m1, t);
        assert forall|k: u32, i: int| m1.contains_key(k) && 0 <= i < m1[k].0.len()
            implies !is_jump((#[trigger] m1[k].0[i]).1) && k <= m1[k].0[i].0 < next by {}
    }
}

/// The blocks that `discover_blocks(base, data)` lists (`listed` over this
/// map) are well formed: a block starts at `base`; no body holds a jump or
/// a branch; each body's instructions lie at or after its block's start,
/// inside the code, by increasing address; and every jump or branch that
/// ends a block goes to the start of a block.  (That a body stops before
/// the next block's start does not hold in general: a backward jump into
/// the block being collected starts a block inside it.)
pub proof fn law_blocks_well_formed(data: Seq<u8>, base: u32)
    requires
        base + data.len() < 0x1_0000_0000,
        sweep(data, base, base, Map::empty(), true) is Ok,
    ensures
        data.len() > 0 ==> sweep(data, base, base, Map::empty(), true)->Ok_0.contains_key(base),
        collected(sweep(data, base, base, Map::empty(), true)->Ok_0, (base + data.len()) as u32),
{
    lemma_sweep_collects(data, base, base, Map::empty(), true);
}

} // verus!
