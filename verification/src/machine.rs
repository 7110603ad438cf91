//! The machine state: opcodes, decoded instructions, the eight-word register
//! file and the segmented memory with its free-identifier pool.

use vstd::prelude::*;
use vstd::arithmetic::div_mod::lemma_fundamental_div_mod;
use vstd::arithmetic::div_mod::lemma_mod_multiples_basic;
use vstd::set_lib::lemma_int_range;
use vstd::set_lib::lemma_set_difference_len;
use vstd::set_lib::set_int_range;
use vstd::seq_lib::seq_to_set_is_finite;
use crate::bitpack::field_value;
use crate::bitpack::getu;

verus! {

/// The fourteen operations of the machine, plus a tag for the two undefined
/// opcode values.
#[derive(PartialEq, Eq, Structural, Debug, Clone, Copy)]
pub enum Opcode {
    CMov,
    Load,
    Store,
    Add,
    Mul,
    Div,
    Nand,
    Halt,
    MapSegment,
    UnmapSegment,
    Output,
    Input,
    LoadProgram,
    LoadValue,
    Undefined,
}

/// The opcode named by the high nibble of an instruction word.
pub open spec fn opcode_of(n: u32) -> Opcode {
    if n == 0 {
        Opcode::CMov
    } else if n == 1 {
        Opcode::Load
    } else if n == 2 {
        Opcode::Store
    } else if n == 3 {
        Opcode::Add
    } else if n == 4 {
        Opcode::Mul
    } else if n == 5 {
        Opcode::Div
    } else if n == 6 {
        Opcode::Nand
    } else if n == 7 {
        Opcode::Halt
    } else if n == 8 {
        Opcode::MapSegment
    } else if n == 9 {
        Opcode::UnmapSegment
    } else if n == 10 {
        Opcode::Output
    } else if n == 11 {
        Opcode::Input
    } else if n == 12 {
        Opcode::LoadProgram
    } else if n == 13 {
        Opcode::LoadValue
    } else {
        Opcode::Undefined
    }
}

/// The opcode of the instruction word `w`: its bits 28 to 31.
pub open spec fn spec_opcode(w: u32) -> Opcode {
    opcode_of(field_value(w, 4, 28))
}

/// Register index A of `w`: bits 25 to 27 for Load-Value, bits 6 to 8 otherwise.
pub open spec fn spec_reg_a(w: u32) -> u32 {
    if spec_opcode(w) == Opcode::LoadValue {
        field_value(w, 3, 25)
    } else {
        field_value(w, 3, 6)
    }
}

/// Register index B of `w`: bits 3 to 5; Load-Value carries no B.
pub open spec fn spec_reg_b(w: u32) -> u32 {
    if spec_opcode(w) == Opcode::LoadValue {
        0u32
    } else {
        field_value(w, 3, 3)
    }
}

/// Register index C of `w`: bits 0 to 2; Load-Value carries no C.
pub open spec fn spec_reg_c(w: u32) -> u32 {
    if spec_opcode(w) == Opcode::LoadValue {
        0u32
    } else {
        field_value(w, 3, 0)
    }
}

/// The 25-bit immediate of a Load-Value word: bits 0 to 24.
pub open spec fn spec_value(w: u32) -> u32 {
    if spec_opcode(w) == Opcode::LoadValue {
        field_value(w, 25, 0)
    } else {
        0u32
    }
}

/// A decoded instruction: an opcode with three register indices (A, B, C) or,
/// for Load-Value, one register index (A) and a 25-bit immediate (V).
#[derive(Debug)]
pub struct Instruction {
    pub opcode: Opcode,
    pub a: u32,
    pub b: u32,
    pub c: u32,
    pub v: u32,
}

impl Instruction {
    /// Register indices fit in three bits; the immediate fits in 25 bits.
    pub open spec fn wf(self) -> bool {
        &&& self.a < 8
        &&& self.b < 8
        &&& self.c < 8
        &&& self.v < 0x2000000
    }

    /// The fields are exactly those decoded from the word `w`.
    pub open spec fn decodes(self, w: u32) -> bool {
        &&& self.opcode == spec_opcode(w)
        &&& self.a == spec_reg_a(w)
        &&& self.b == spec_reg_b(w)
        &&& self.c == spec_reg_c(w)
        &&& self.v == spec_value(w)
    }

    /// Decodes a 32-bit instruction word into its opcode and fields.
    pub fn new(inst: u32) -> (r: Instruction)
        ensures
            r.decodes(inst),
            r.wf(),
    {
        proof {
            assert(field_value(inst, 3, 25) < 8 && field_value(inst, 3, 6) < 8 && field_value(
                inst,
                3,
                3,
            ) < 8 && field_value(inst, 3, 0) < 8 && field_value(inst, 25, 0)
                < 0x2000000) by (bit_vector);
        }
        let opcode_num = getu(inst, 4, 28);
        let opcode = match opcode_num {
            0 => Opcode::CMov,
            1 => Opcode::Load,
            2 => Opcode::Store,
            3 => Opcode::Add,
            4 => Opcode::Mul,
            5 => Opcode::Div,
            6 => Opcode::Nand,
            7 => Opcode::Halt,
            8 => Opcode::MapSegment,
            9 => Opcode::UnmapSegment,
            10 => Opcode::Output,
            11 => Opcode::Input,
            12 => Opcode::LoadProgram,
            13 => Opcode::LoadValue,
            _ => Opcode::Undefined,
        };
        if opcode == Opcode::LoadValue {
            Instruction {
                opcode,
                a: getu(inst, 3, 25),
                b: 0,
                c: 0,
                v: getu(inst, 25, 0),
            }
        } else {
            Instruction {
                opcode,
                a: getu(inst, 3, 6),
                b: getu(inst, 3, 3),
                c: getu(inst, 3, 0),
                v: 0,
            }
        }
    }
}

/// A sequence of `n` zeroed words: the contents of a freshly mapped segment.
pub open spec fn zero_words(n: nat) -> Seq<u32> {
    Seq::new(n, |i: int| 0u32)
}

/// The segments after a Load-Program from segment `id`: for a non-zero `id`
/// a copy of its contents replaces segment 0; `id` 0 names the running
/// program itself and nothing changes.
pub open spec fn spec_load_segment(h: Seq<Seq<u32>>, id: int) -> Seq<Seq<u32>> {
    if id == 0 {
        h
    } else {
        h.update(0, h[id])
    }
}

/// The machine: eight registers, the segments indexed by identifier, and the
/// last-in-first-out pool of freed identifiers.
pub struct UM {
    pub regs: Vec<u32>,
    pub heap: Vec<Vec<u32>>,
    pub free_identifiers: Vec<u32>,
}

impl UM {
    /// The contents of every segment slot, indexed by identifier.
    pub open spec fn heaps(self) -> Seq<Seq<u32>> {
        self.heap@.map_values(|s: Vec<u32>| s@)
    }

    /// The freed identifiers, most recently freed last.
    pub open spec fn pool(self) -> Seq<u32> {
        self.free_identifiers@
    }

    /// Whether `id` names a live segment: it has a slot and is not in the
    /// free pool.
    pub open spec fn is_live(self, id: u32) -> bool {
        &&& (id as int) < self.heaps().len()
        &&& !self.pool().contains(id)
    }

    /// Well-formedness: eight registers; segment 0 exists; identifiers fit in
    /// 32 bits, as does every offset into a segment; the free pool holds
    /// distinct non-zero identifiers of existing slots, and a freed slot
    /// holds no data.
    pub open spec fn wf(self) -> bool {
        &&& self.regs@.len() == 8
        &&& 1 <= self.heaps().len() <= 0x1_0000_0000
        &&& (forall|i: int|
            0 <= i < self.heaps().len() ==> (#[trigger] self.heaps()[i]).len() <= 0xFFFF_FFFF)
        &&& self.pool().no_duplicates()
        &&& (forall|i: int|
            0 <= i < self.pool().len() ==> 0 < #[trigger] self.pool()[i] && (self.pool()[i] as int)
                < self.heaps().len())
        &&& (forall|i: int|
            0 <= i < self.pool().len() ==> self.heaps()[#[trigger] self.pool()[i] as int].len()
                == 0)
    }

    /// Returns a machine with zeroed registers, `instructions` as segment 0,
    /// and an empty free pool.
    pub fn new(instructions: Vec<u32>) -> (r: UM)
        requires
            instructions@.len() <= 0xFFFF_FFFF,
        ensures
            r.wf(),
            r.regs@ == zero_words(8),
            r.heaps() == seq![instructions@],
            r.pool() == Seq::<u32>::empty(),
    {
        let regs = vec![0u32; 8];
        let mut mem: Vec<Vec<u32>> = Vec::new();
        let ghost program = instructions@;
        mem.push(instructions);
        let r = UM { regs, heap: mem, free_identifiers: Vec::new() };
        proof {
            assert(r.regs@ =~= zero_words(8));
            assert(r.heaps() =~= seq![program]);
            assert(r.pool() =~= Seq::<u32>::empty());
        }
        r
    }

    /// Returns the word at offset `pc` of segment 0: the next instruction.
    pub fn get_instruction(&self, pc: u32) -> (r: u32)
        requires
            self.heaps().len() >= 1,
            (pc as int) < self.heaps()[0].len(),
        ensures
            r == self.heaps()[0][pc as int],
    {
        self.heap[0][pc as usize]
    }

    /// Whether `id` currently names a live segment.
    pub fn check_live(&self, id: u32) -> (r: bool)
        ensures
            r == self.is_live(id),
    {
        if id as usize >= self.heap.len() {
            return false;
        }
        let mut i: usize = 0;
        while i < self.free_identifiers.len()
            invariant
                i <= self.pool().len(),
                forall|j: int| 0 <= j < i ==> self.pool()[j] != id,
            decreases self.pool().len() - i,
        {
            if self.free_identifiers[i] == id {
                return false;
            }
            i = i + 1;
        }
        true
    }

    /// Conditional Move: if R[C] is non-zero, R[A] receives R[B].
    pub fn c_move(&mut self, instruction: Instruction)
        requires
            old(self).wf(),
            instruction.wf(),
        ensures
            final(self).wf(),
            final(self).regs@ == (if old(self).regs@[instruction.c as int] != 0 {
                old(self).regs@.update(
                    instruction.a as int,
                    old(self).regs@[instruction.b as int],
                )
            } else {
                old(self).regs@
            }),
            final(self).heaps() == old(self).heaps(),
            final(self).pool() == old(self).pool(),
    {
        if self.regs[instruction.c as usize] != 0 {
            let value = self.regs[instruction.b as usize];
            self.regs[instruction.a as usize] = value;
        }
    }

    /// Segmented Load: R[A] receives the word at offset R[C] of segment R[B].
    pub fn s_load(&mut self, instruction: Instruction)
        requires
            old(self).wf(),
            instruction.wf(),
            (old(self).regs@[instruction.b as int] as int) < old(self).heaps().len(),
            (old(self).regs@[instruction.c as int] as int) < old(self).heaps()[old(
                self,
            ).regs@[instruction.b as int] as int].len(),
        ensures
            final(self).wf(),
            final(self).regs@ == old(self).regs@.update(
                instruction.a as int,
                old(self).heaps()[old(self).regs@[instruction.b as int] as int][old(
                    self,
                ).regs@[instruction.c as int] as int],
            ),
            final(self).heaps() == old(self).heaps(),
            final(self).pool() == old(self).pool(),
    {
        let seg = self.regs[instruction.b as usize];
        let off = self.regs[instruction.c as usize];
        let value = self.heap[seg as usize][off as usize];
        self.regs[instruction.a as usize] = value;
    }

    /// Segmented Store: the word at offset R[B] of segment R[A] receives R[C].
    pub fn s_store(&mut self, instruction: Instruction)
        requires
            old(self).wf(),
            instruction.wf(),
            (old(self).regs@[instruction.a as int] as int) < old(self).heaps().len(),
            (old(self).regs@[instruction.b as int] as int) < old(self).heaps()[old(
                self,
            ).regs@[instruction.a as int] as int].len(),
        ensures
            final(self).wf(),
            final(self).regs@ == old(self).regs@,
            final(self).pool() == old(self).pool(),
            final(self).heaps() == old(self).heaps().update(
                old(self).regs@[instruction.a as int] as int,
                old(self).heaps()[old(self).regs@[instruction.a as int] as int].update(
                    old(self).regs@[instruction.b as int] as int,
                    old(self).regs@[instruction.c as int],
                ),
            ),
    {
        let seg = self.regs[instruction.a as usize];
        let off = self.regs[instruction.b as usize];
        let value = self.regs[instruction.c as usize];
        self.heap[seg as usize][off as usize] = value;
        proof {
            assert(self.heaps() =~~= old(self).heaps().update(
                seg as int,
                old(self).heaps()[seg as int].update(off as int, value),
            ));
        }
    }

    /// Add: R[A] receives the sum of R[B] and R[C], modulo 2^32.
    pub fn add(&mut self, instruction: Instruction)
        requires
            old(self).wf(),
            instruction.wf(),
        ensures
            final(self).wf(),
            final(self).regs@ == old(self).regs@.update(
                instruction.a as int,
                (((old(self).regs@[instruction.b as int] + old(
                    self,
                ).regs@[instruction.c as int]) % 0x1_0000_0000) as u32),
            ),
            final(self).heaps() == old(self).heaps(),
            final(self).pool() == old(self).pool(),
    {
        let value = self.regs[instruction.b as usize].wrapping_add(
            self.regs[instruction.c as usize],
        );
        self.regs[instruction.a as usize] = value;
    }

    /// Multiply: R[A] receives the product of R[B] and R[C], modulo 2^32.
    pub fn mul(&mut self, instruction: Instruction)
        requires
            old(self).wf(),
            instruction.wf(),
        ensures
            final(self).wf(),
            final(self).regs@ == old(self).regs@.update(
                instruction.a as int,
                (((old(self).regs@[instruction.b as int] * old(
                    self,
                ).regs@[instruction.c as int]) % 0x1_0000_0000) as u32),
            ),
            final(self).heaps() == old(self).heaps(),
            final(self).pool() == old(self).pool(),
    {
        let value = self.regs[instruction.b as usize].wrapping_mul(
            self.regs[instruction.c as usize],
        );
        self.regs[instruction.a as usize] = value;
    }

    /// Divide: R[A] receives R[B] divided by R[C], truncating unsigned
    /// division.  The divisor must be non-zero.
    pub fn div(&mut self, instruction: Instruction)
        requires
            old(self).wf(),
            instruction.wf(),
            old(self).regs@[instruction.c as int] != 0,
        ensures
            final(self).wf(),
            final(self).regs@ == old(self).regs@.update(
                instruction.a as int,
                (((old(self).regs@[instruction.b as int] as int) / (old(
                    self,
                ).regs@[instruction.c as int] as int)) as u32),
            ),
            final(self).heaps() == old(self).heaps(),
            final(self).pool() == old(self).pool(),
    {
        let value = self.regs[instruction.b as usize] / self.regs[instruction.c as usize];
        self.regs[instruction.a as usize] = value;
    }

    /// Nand: R[A] receives the bitwise negation of R[B] and R[C] conjoined.
    pub fn nand(&mut self, instruction: Instruction)
        requires
            old(self).wf(),
            instruction.wf(),
        ensures
            final(self).wf(),
            final(self).regs@ == old(self).regs@.update(
                instruction.a as int,
                !(old(self).regs@[instruction.b as int] & old(self).regs@[instruction.c as int]),
            ),
            final(self).heaps() == old(self).heaps(),
            final(self).pool() == old(self).pool(),
    {
        let value = !(self.regs[instruction.b as usize] & self.regs[instruction.c as usize]);
        self.regs[instruction.a as usize] = value;
    }

    /// Map Segment: allocates a zeroed segment of R[C] words under an
    /// identifier that is not live, preferring the most recently freed one,
    /// and stores that identifier in R[B].  Identifier 0 is never returned.
    pub fn map_s(&mut self, instruction: Instruction)
        requires
            old(self).wf(),
            instruction.wf(),
            old(self).pool().len() > 0 || old(self).heaps().len() < 0x1_0000_0000,
        ensures
            final(self).wf(),
            ({
                let id = final(self).regs@[instruction.b as int];
                let n = old(self).regs@[instruction.c as int];
                &&& id != 0
                &&& !old(self).is_live(id)
                &&& final(self).is_live(id)
                &&& final(self).regs@ == old(self).regs@.update(instruction.b as int, id)
                &&& final(self).heaps()[id as int] == zero_words(n as nat)
                &&& (if old(self).pool().len() > 0 {
                    &&& id == old(self).pool().last()
                    &&& final(self).pool() == old(self).pool().drop_last()
                    &&& final(self).heaps() == old(self).heaps().update(
                        id as int,
                        zero_words(n as nat),
                    )
                } else {
                    &&& id as int == old(self).heaps().len()
                    &&& final(self).pool() == old(self).pool()
                    &&& final(self).heaps() == old(self).heaps().push(zero_words(n as nat))
                })
            }),
    {
        let n = self.regs[instruction.c as usize];
        let new_segment = vec![0u32; n as usize];
        proof {
            assert(new_segment@ =~= zero_words(n as nat));
        }
        if self.free_identifiers.len() == 0 {
            self.heap.push(new_segment);
            let id = (self.heap.len() - 1) as u32;
            self.regs[instruction.b as usize] = id;
            proof {
                assert(self.heaps() =~~= old(self).heaps().push(zero_words(n as nat)));
            }
        } else {
            let address = self.free_identifiers[self.free_identifiers.len() - 1];
            self.heap[address as usize] = new_segment;
            self.free_identifiers.pop();
            self.regs[instruction.b as usize] = address;
            proof {
                assert(self.heaps() =~~= old(self).heaps().update(
                    address as int,
                    zero_words(n as nat),
                ));
                assert(self.pool() =~= old(self).pool().drop_last());
            }
        }
    }

    /// Unmap Segment: frees the live, non-zero segment R[C] and pushes its
    /// identifier onto the free pool for reuse.
    pub fn unmap_s(&mut self, instruction: Instruction)
        requires
            old(self).wf(),
            instruction.wf(),
            old(self).regs@[instruction.c as int] != 0,
            old(self).is_live(old(self).regs@[instruction.c as int]),
        ensures
            final(self).wf(),
            final(self).regs@ == old(self).regs@,
            final(self).pool() == old(self).pool().push(old(self).regs@[instruction.c as int]),
            final(self).heaps() == old(self).heaps().update(
                old(self).regs@[instruction.c as int] as int,
                Seq::<u32>::empty(),
            ),
            !final(self).is_live(old(self).regs@[instruction.c as int]),
    {
        let temp = self.regs[instruction.c as usize];
        self.free_identifiers.push(temp);
        self.heap[temp as usize] = Vec::new();
        proof {
            assert(self.heaps() =~~= old(self).heaps().update(temp as int, Seq::<u32>::empty()));
            assert(final(self).pool().last() == temp);
        }
    }

    /// Load Program: for a non-zero R[B], a copy of that live segment's
    /// contents replaces segment 0; R[B] 0 skips the copy.  Returns R[C],
    /// the new program counter.
    pub fn load_program(&mut self, instruction: Instruction) -> (r: usize)
        requires
            old(self).wf(),
            instruction.wf(),
            old(self).regs@[instruction.b as int] != 0 ==> old(self).is_live(
                old(self).regs@[instruction.b as int],
            ),
        ensures
            final(self).wf(),
            r == old(self).regs@[instruction.c as int],
            final(self).regs@ == old(self).regs@,
            final(self).pool() == old(self).pool(),
            final(self).heaps() == spec_load_segment(
                old(self).heaps(),
                old(self).regs@[instruction.b as int] as int,
            ),
    {
        let source = self.regs[instruction.b as usize];
        if source != 0 {
            let temp = self.heap[source as usize].clone();
            proof {
                assert(temp@ =~= old(self).heaps()[source as int]);
            }
            self.heap[0] = temp;
            proof {
                assert(self.heaps() =~~= spec_load_segment(old(self).heaps(), source as int));
            }
        }
        self.regs[instruction.c as usize] as usize
    }

    /// Load Value: R[A] receives the 25-bit immediate V.
    pub fn load_value(&mut self, instruction: Instruction)
        requires
            old(self).wf(),
            instruction.wf(),
        ensures
            final(self).wf(),
            final(self).regs@ == old(self).regs@.update(instruction.a as int, instruction.v),
            final(self).heaps() == old(self).heaps(),
            final(self).pool() == old(self).pool(),
    {
        self.regs[instruction.a as usize] = instruction.v;
    }

    /// The set of identifiers of live segments.
    pub open spec fn live_ids(self) -> Set<int> {
        set_int_range(0, self.heaps().len() as int).difference(self.pool_ids())
    }

    /// The identifiers in the free pool, as a set.
    pub open spec fn pool_ids(self) -> Set<int> {
        self.pool().map_values(|id: u32| id as int).to_set()
    }
}

/// Every identifier below the high-water mark is live or in the free pool,
/// never both: the live count and the pool size sum to the number of slots.
pub proof fn lemma_segment_accounting(m: UM)
    requires
        m.wf(),
    ensures
        m.live_ids().len() + m.pool().len() == m.heaps().len(),
{
    let n = m.heaps().len() as int;
    let range = set_int_range(0, n);
    let mapped = m.pool().map_values(|id: u32| id as int);
    lemma_int_range(0, n);
    assert(mapped.no_duplicates()) by {
        assert forall|i: int, j: int|
            0 <= i < mapped.len() && 0 <= j < mapped.len() && i != j implies mapped[i]
            != mapped[j] by {
            assert(m.pool()[i] != m.pool()[j]);
        }
    }
    seq_to_set_is_finite(mapped);
    mapped.unique_seq_to_set();
    assert(m.pool_ids().len() == m.pool().len());
    assert forall|x: int| m.pool_ids().contains(x) implies range.contains(x) by {
        let i = choose|i: int| 0 <= i < mapped.len() && mapped[i] == x;
        assert(0 < m.pool()[i] && (m.pool()[i] as int) < n);
    }
    lemma_set_difference_len(range, m.pool_ids());
    assert(range.intersect(m.pool_ids()) =~= m.pool_ids());
}

/// Identifier 0 is live in every well-formed machine: it has a slot and the
/// free pool holds only non-zero identifiers.
pub proof fn lemma_zero_always_live(m: UM)
    requires
        m.wf(),
    ensures
        m.is_live(0),
{
    if m.pool().contains(0u32) {
        let i = choose|i: int| 0 <= i < m.pool().len() && m.pool()[i] == 0u32;
        assert(0 < m.pool()[i]);
    }
}

/// Loading a program from segment `id` leaves segment `id` itself unchanged.
pub proof fn lemma_load_segment_preserves_source(h: Seq<Seq<u32>>, id: int)
    requires
        0 < id < h.len(),
    ensures
        spec_load_segment(h, id)[id] == h[id],
{
}

/// A second Load-Program from the same segment, with no mutation in between,
/// leaves the segments exactly as the first one did.
pub proof fn lemma_load_segment_idempotent(h: Seq<Seq<u32>>, id: int)
    requires
        0 < id < h.len(),
    ensures
        spec_load_segment(spec_load_segment(h, id), id) == spec_load_segment(h, id),
{
    assert(spec_load_segment(spec_load_segment(h, id), id) =~= spec_load_segment(h, id));
}

/// The stored Add and Mul results are below 2^32 and congruent to the exact
/// sum and product modulo 2^32: reducing them again changes nothing.
pub proof fn lemma_wrap_round_trip(x: u32, y: u32)
    ensures
        0 <= (x + y) % 0x1_0000_0000 < 0x1_0000_0000,
        ((x + y) - (x + y) % 0x1_0000_0000) % 0x1_0000_0000 == 0,
        0 <= (x * y) % 0x1_0000_0000 < 0x1_0000_0000,
        ((x * y) - (x * y) % 0x1_0000_0000) % 0x1_0000_0000 == 0,
{
    let m = 0x1_0000_0000int;
    let s = x + y;
    let p = x * y;
    lemma_fundamental_div_mod(s, m);
    lemma_mod_multiples_basic(s / m, m);
    lemma_fundamental_div_mod(p, m);
    lemma_mod_multiples_basic(p / m, m);
}

/// Decoded register indices always fit the eight-register file.
pub proof fn lemma_reg_fields_bounded(w: u32)
    ensures
        spec_reg_a(w) < 8,
        spec_reg_b(w) < 8,
        spec_reg_c(w) < 8,
{
    assert(field_value(w, 3, 25) < 8 && field_value(w, 3, 6) < 8 && field_value(w, 3, 3) < 8
        && field_value(w, 3, 0) < 8) by (bit_vector);
}

/// Nand of a word with itself is its bitwise negation.
pub proof fn lemma_nand_self_is_not(x: u32)
    by (bit_vector)
    ensures
        !(x & x) == !x,
{
}

/// A Nand of a Nand with itself restores the conjunction: two Nands
/// synthesize AND.
pub proof fn lemma_two_nands_are_and(x: u32, y: u32)
    by (bit_vector)
    ensures
        !(!(x & y) & !(x & y)) == (x & y),
{
}

/// Nand over the self-Nands of the operands is their disjunction: three
/// Nands synthesize OR.
pub proof fn lemma_three_nands_are_or(x: u32, y: u32)
    by (bit_vector)
    ensures
        !(!(x & x) & !(y & y)) == (x | y),
{
}

} // verus!
