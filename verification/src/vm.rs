//! One execution step: fetch from segment 0, decode, dispatch.  Input and
//! output bytes are exchanged with the caller, who owns the streams.

use vstd::prelude::*;
use crate::machine::Instruction;
use crate::machine::Opcode;
use crate::machine::UM;
use crate::machine::spec_load_segment;
use crate::machine::spec_opcode;
use crate::machine::spec_reg_a;
use crate::machine::spec_reg_b;
use crate::machine::spec_reg_c;
use crate::machine::spec_value;
use crate::machine::zero_words;

verus! {

/// An unrecoverable condition that terminates execution.
#[derive(PartialEq, Eq, Structural, Debug, Clone, Copy)]
pub enum Trap {
    /// The fetched word holds opcode value 14 or 15.
    Decode,
    /// A read or write of a segment that is not live, or past its end.
    SegmentOutOfBounds,
    /// An attempt to unmap segment 0.
    UnmapZero,
    /// A Div instruction with a zero divisor R[C].
    DivideByZero,
    /// The program counter points past the end of segment 0 at fetch time.
    FetchOutOfBounds,
    /// Every 32-bit identifier names a live segment, so Map has none left.
    IdentifierExhausted,
}

/// What one step asks of its caller.
#[derive(PartialEq, Eq, Structural, Debug, Clone, Copy)]
pub enum Effect {
    /// The instruction is fully executed; fetch the next one.
    Proceed,
    /// A Halt instruction: execution stops cleanly.
    Halt,
    /// An Output instruction: this byte is to be written to the output
    /// stream.
    Emit(u8),
    /// An Input instruction: one byte is to be read and handed to
    /// `provide_input` together with the named target register.
    ReadInto(u32),
    /// Execution stops with the named trap.
    Fault(Trap),
}

/// Neither registers, segments nor free pool differ between `m` and `m2`.
pub open spec fn unchanged(m: UM, m2: UM) -> bool {
    &&& m2.regs@ == m.regs@
    &&& m2.heaps() == m.heaps()
    &&& m2.pool() == m.pool()
}

/// The segments and the free pool of `m2` are those of `m`.
pub open spec fn mem_unchanged(m: UM, m2: UM) -> bool {
    &&& m2.heaps() == m.heaps()
    &&& m2.pool() == m.pool()
}

/// The meaning of one step: it relates the machine and counter before the
/// fetch (`m`, `p`) to those after the instruction (`m2`, `p2`) and to the
/// effect `e` the caller is asked to perform.
pub open spec fn step_spec(m: UM, p: u32, m2: UM, p2: u32, e: Effect) -> bool
    recommends
        m.wf(),
{
    if (p as int) >= m.heaps()[0].len() {
        &&& unchanged(m, m2)
        &&& p2 == p
        &&& e == Effect::Fault(Trap::FetchOutOfBounds)
    } else {
        let w = m.heaps()[0][p as int];
        let a = spec_reg_a(w) as int;
        let b = spec_reg_b(w) as int;
        let c = spec_reg_c(w) as int;
        let ra = m.regs@[a];
        let rb = m.regs@[b];
        let rc = m.regs@[c];
        match spec_opcode(w) {
            Opcode::CMov => {
                &&& mem_unchanged(m, m2)
                &&& m2.regs@ == (if rc != 0 {
                    m.regs@.update(a, rb)
                } else {
                    m.regs@
                })
                &&& p2 == p + 1
                &&& e == Effect::Proceed
            },
            Opcode::Load => {
                if (rb as int) < m.heaps().len() && (rc as int) < m.heaps()[rb as int].len() {
                    &&& mem_unchanged(m, m2)
                    &&& m2.regs@ == m.regs@.update(a, m.heaps()[rb as int][rc as int])
                    &&& p2 == p + 1
                    &&& e == Effect::Proceed
                } else {
                    &&& unchanged(m, m2)
                    &&& p2 == p + 1
                    &&& e == Effect::Fault(Trap::SegmentOutOfBounds)
                }
            },
            Opcode::Store => {
                if (ra as int) < m.heaps().len() && (rb as int) < m.heaps()[ra as int].len() {
                    &&& m2.regs@ == m.regs@
                    &&& m2.pool() == m.pool()
                    &&& m2.heaps() == m.heaps().update(
                        ra as int,
                        m.heaps()[ra as int].update(rb as int, rc),
                    )
                    &&& p2 == p + 1
                    &&& e == Effect::Proceed
                } else {
                    &&& unchanged(m, m2)
                    &&& p2 == p + 1
                    &&& e == Effect::Fault(Trap::SegmentOutOfBounds)
                }
            },
            Opcode::Add => {
                &&& mem_unchanged(m, m2)
                &&& m2.regs@ == m.regs@.update(a, (((rb + rc) % 0x1_0000_0000) as u32))
                &&& p2 == p + 1
                &&& e == Effect::Proceed
            },
            Opcode::Mul => {
                &&& mem_unchanged(m, m2)
                &&& m2.regs@ == m.regs@.update(a, (((rb * rc) % 0x1_0000_0000) as u32))
                &&& p2 == p + 1
                &&& e == Effect::Proceed
            },
            Opcode::Div => {
                if rc == 0 {
                    &&& unchanged(m, m2)
                    &&& p2 == p + 1
                    &&& e == Effect::Fault(Trap::DivideByZero)
                } else {
                    &&& mem_unchanged(m, m2)
                    &&& m2.regs@ == m.regs@.update(a, (((rb as int) / (rc as int)) as u32))
                    &&& p2 == p + 1
                    &&& e == Effect::Proceed
                }
            },
            Opcode::Nand => {
                &&& mem_unchanged(m, m2)
                &&& m2.regs@ == m.regs@.update(a, !(rb & rc))
                &&& p2 == p + 1
                &&& e == Effect::Proceed
            },
            Opcode::Halt => {
                &&& unchanged(m, m2)
                &&& p2 == p + 1
                &&& e == Effect::Halt
            },
            Opcode::MapSegment => {
                if m.pool().len() == 0 && m.heaps().len() >= 0x1_0000_0000 {
                    &&& unchanged(m, m2)
                    &&& p2 == p + 1
                    &&& e == Effect::Fault(Trap::IdentifierExhausted)
                } else {
                    let id = m2.regs@[b];
                    &&& id != 0
                    &&& !m.is_live(id)
                    &&& m2.is_live(id)
                    &&& m2.regs@ == m.regs@.update(b, id)
                    &&& (if m.pool().len() > 0 {
                        &&& id == m.pool().last()
                        &&& m2.pool() == m.pool().drop_last()
                        &&& m2.heaps() == m.heaps().update(id as int, zero_words(rc as nat))
                    } else {
                        &&& id as int == m.heaps().len()
                        &&& m2.pool() == m.pool()
                        &&& m2.heaps() == m.heaps().push(zero_words(rc as nat))
                    })
                    &&& p2 == p + 1
                    &&& e == Effect::Proceed
                }
            },
            Opcode::UnmapSegment => {
                if rc == 0 {
                    &&& unchanged(m, m2)
                    &&& p2 == p + 1
                    &&& e == Effect::Fault(Trap::UnmapZero)
                } else if !m.is_live(rc) {
                    &&& unchanged(m, m2)
                    &&& p2 == p + 1
                    &&& e == Effect::Fault(Trap::SegmentOutOfBounds)
                } else {
                    &&& m2.regs@ == m.regs@
                    &&& m2.pool() == m.pool().push(rc)
                    &&& m2.heaps() == m.heaps().update(rc as int, Seq::<u32>::empty())
                    &&& p2 == p + 1
                    &&& e == Effect::Proceed
                }
            },
            Opcode::Output => {
                &&& unchanged(m, m2)
                &&& p2 == p + 1
                &&& e == (if rc <= 255 {
                    Effect::Emit(rc as u8)
                } else {
                    Effect::Proceed
                })
            },
            Opcode::Input => {
                &&& unchanged(m, m2)
                &&& p2 == p + 1
                &&& e == Effect::ReadInto(spec_reg_c(w))
            },
            Opcode::LoadProgram => {
                if rb != 0 && !m.is_live(rb) {
                    &&& unchanged(m, m2)
                    &&& p2 == p + 1
                    &&& e == Effect::Fault(Trap::SegmentOutOfBounds)
                } else {
                    &&& m2.regs@ == m.regs@
                    &&& m2.pool() == m.pool()
                    &&& m2.heaps() == spec_load_segment(m.heaps(), rb as int)
                    &&& p2 == rc
                    &&& e == Effect::Proceed
                }
            },
            Opcode::LoadValue => {
                &&& mem_unchanged(m, m2)
                &&& m2.regs@ == m.regs@.update(a, spec_value(w))
                &&& p2 == p + 1
                &&& e == Effect::Proceed
            },
            Opcode::Undefined => {
                &&& unchanged(m, m2)
                &&& p2 == p + 1
                &&& e == Effect::Fault(Trap::Decode)
            },
        }
    }
}

/// Fetches the word at offset `pc` of segment 0, advances the counter,
/// decodes the word and executes it.  Whatever touches the outside world is
/// returned as an effect for the caller to perform.
pub fn step(um: &mut UM, pc: &mut u32) -> (e: Effect)
    requires
        old(um).wf(),
    ensures
        final(um).wf(),
        step_spec(*old(um), *old(pc), *final(um), *final(pc), e),
{
    if (*pc as usize) >= um.heap[0].len() {
        return Effect::Fault(Trap::FetchOutOfBounds);
    }
    let word = um.get_instruction(*pc);
    *pc = *pc + 1;
    let inst = Instruction::new(word);
    match inst.opcode {
        Opcode::CMov => {
            um.c_move(inst);
            Effect::Proceed
        },
        Opcode::Load => {
            let seg = um.regs[inst.b as usize];
            let off = um.regs[inst.c as usize];
            if (seg as usize) < um.heap.len() && (off as usize) < um.heap[seg as usize].len() {
                um.s_load(inst);
                Effect::Proceed
            } else {
                Effect::Fault(Trap::SegmentOutOfBounds)
            }
        },
        Opcode::Store => {
            let seg = um.regs[inst.a as usize];
            let off = um.regs[inst.b as usize];
            if (seg as usize) < um.heap.len() && (off as usize) < um.heap[seg as usize].len() {
                um.s_store(inst);
                Effect::Proceed
            } else {
                Effect::Fault(Trap::SegmentOutOfBounds)
            }
        },
        Opcode::Add => {
            um.add(inst);
            Effect::Proceed
        },
        Opcode::Mul => {
            um.mul(inst);
            Effect::Proceed
        },
        Opcode::Div => {
            if um.regs[inst.c as usize] == 0 {
                Effect::Fault(Trap::DivideByZero)
            } else {
                um.div(inst);
                Effect::Proceed
            }
        },
        Opcode::Nand => {
            um.nand(inst);
            Effect::Proceed
        },
        Opcode::Halt => Effect::Halt,
        Opcode::MapSegment => {
            if um.free_identifiers.len() == 0 && (um.heap.len() as u64) >= 0x1_0000_0000u64 {
                Effect::Fault(Trap::IdentifierExhausted)
            } else {
                um.map_s(inst);
                Effect::Proceed
            }
        },
        Opcode::UnmapSegment => {
            let id = um.regs[inst.c as usize];
            if id == 0 {
                Effect::Fault(Trap::UnmapZero)
            } else if !um.check_live(id) {
                Effect::Fault(Trap::SegmentOutOfBounds)
            } else {
                um.unmap_s(inst);
                Effect::Proceed
            }
        },
        Opcode::Output => {
            let value = um.regs[inst.c as usize];
            if value <= 255 {
                Effect::Emit(value as u8)
            } else {
                Effect::Proceed
            }
        },
        Opcode::Input => Effect::ReadInto(inst.c),
        Opcode::LoadProgram => {
            let source = um.regs[inst.b as usize];
            if source != 0 && !um.check_live(source) {
                Effect::Fault(Trap::SegmentOutOfBounds)
            } else {
                let new_pc = um.load_program(inst);
                *pc = new_pc as u32;
                Effect::Proceed
            }
        },
        Opcode::LoadValue => {
            um.load_value(inst);
            Effect::Proceed
        },
        Opcode::Undefined => Effect::Fault(Trap::Decode),
    }
}

/// How a bounded run ended.
#[derive(PartialEq, Eq, Structural, Debug, Clone, Copy)]
pub enum RunStatus {
    /// A Halt instruction was executed.
    Halted,
    /// Execution stopped with the named trap.
    Faulted(Trap),
    /// The step bound was reached first.
    OutOfFuel,
}

/// The mathematical machine state: the views of the registers, the
/// segments, the free pool and the program counter.
pub ghost struct Config {
    pub regs: Seq<u32>,
    pub heaps: Seq<Seq<u32>>,
    pub pool: Seq<u32>,
    pub pc: int,
}

/// The state `m` and counter `p` as a mathematical configuration.
pub open spec fn config_of(m: UM, p: u32) -> Config {
    Config { regs: m.regs@, heaps: m.heaps(), pool: m.pool(), pc: p as int }
}

/// Whether `id` names a live segment of the configuration `c`.
pub open spec fn config_live(c: Config, id: u32) -> bool {
    &&& (id as int) < c.heaps.len()
    &&& !c.pool.contains(id)
}

/// One step as a function of the configuration: the state after the
/// instruction and the effect asked of the caller.
pub open spec fn config_step(c: Config) -> (Config, Effect) {
    if c.pc >= c.heaps[0].len() {
        (c, Effect::Fault(Trap::FetchOutOfBounds))
    } else {
        let w = c.heaps[0][c.pc];
        let a = spec_reg_a(w) as int;
        let b = spec_reg_b(w) as int;
        let c_idx = spec_reg_c(w) as int;
        let ra = c.regs[a];
        let rb = c.regs[b];
        let rc = c.regs[c_idx];
        let next = Config { pc: c.pc + 1, ..c };
        match spec_opcode(w) {
            Opcode::CMov => (
                Config {
                    regs: if rc != 0 {
                        c.regs.update(a, rb)
                    } else {
                        c.regs
                    },
                    ..next
                },
                Effect::Proceed,
            ),
            Opcode::Load => {
                if (rb as int) < c.heaps.len() && (rc as int) < c.heaps[rb as int].len() {
                    (
                        Config { regs: c.regs.update(a, c.heaps[rb as int][rc as int]), ..next },
                        Effect::Proceed,
                    )
                } else {
                    (next, Effect::Fault(Trap::SegmentOutOfBounds))
                }
            },
            Opcode::Store => {
                if (ra as int) < c.heaps.len() && (rb as int) < c.heaps[ra as int].len() {
                    (
                        Config {
                            heaps: c.heaps.update(
                                ra as int,
                                c.heaps[ra as int].update(rb as int, rc),
                            ),
                            ..next
                        },
                        Effect::Proceed,
                    )
                } else {
                    (next, Effect::Fault(Trap::SegmentOutOfBounds))
                }
            },
            Opcode::Add => (
                Config { regs: c.regs.update(a, (((rb + rc) % 0x1_0000_0000) as u32)), ..next },
                Effect::Proceed,
            ),
            Opcode::Mul => (
                Config { regs: c.regs.update(a, (((rb * rc) % 0x1_0000_0000) as u32)), ..next },
                Effect::Proceed,
            ),
            Opcode::Div => {
                if rc == 0 {
                    (next, Effect::Fault(Trap::DivideByZero))
                } else {
                    (
                        Config {
                            regs: c.regs.update(a, (((rb as int) / (rc as int)) as u32)),
                            ..next
                        },
                        Effect::Proceed,
                    )
                }
            },
            Opcode::Nand => (
                Config { regs: c.regs.update(a, !(rb & rc)), ..next },
                Effect::Proceed,
            ),
            Opcode::Halt => (next, Effect::Halt),
            Opcode::MapSegment => {
                if c.pool.len() == 0 && c.heaps.len() >= 0x1_0000_0000 {
                    (next, Effect::Fault(Trap::IdentifierExhausted))
                } else if c.pool.len() > 0 {
                    let id = c.pool.last();
                    (
                        Config {
                            regs: c.regs.update(b, id),
                            heaps: c.heaps.update(id as int, zero_words(rc as nat)),
                            pool: c.pool.drop_last(),
                            ..next
                        },
                        Effect::Proceed,
                    )
                } else {
                    let id = c.heaps.len() as u32;
                    (
                        Config {
                            regs: c.regs.update(b, id),
                            heaps: c.heaps.push(zero_words(rc as nat)),
                            ..next
                        },
                        Effect::Proceed,
                    )
                }
            },
            Opcode::UnmapSegment => {
                if rc == 0 {
                    (next, Effect::Fault(Trap::UnmapZero))
                } else if !config_live(c, rc) {
                    (next, Effect::Fault(Trap::SegmentOutOfBounds))
                } else {
                    (
                        Config {
                            heaps: c.heaps.update(rc as int, Seq::<u32>::empty()),
                            pool: c.pool.push(rc),
                            ..next
                        },
                        Effect::Proceed,
                    )
                }
            },
            Opcode::Output => (
                next,
                if rc <= 255 {
                    Effect::Emit(rc as u8)
                } else {
                    Effect::Proceed
                },
            ),
            Opcode::Input => (next, Effect::ReadInto(spec_reg_c(w))),
            Opcode::LoadProgram => {
                if rb != 0 && !config_live(c, rb) {
                    (next, Effect::Fault(Trap::SegmentOutOfBounds))
                } else {
                    (
                        Config { heaps: spec_load_segment(c.heaps, rb as int), pc: rc as int, ..c },
                        Effect::Proceed,
                    )
                }
            },
            Opcode::LoadValue => (
                Config { regs: c.regs.update(a, spec_value(w)), ..next },
                Effect::Proceed,
            ),
            Opcode::Undefined => (next, Effect::Fault(Trap::Decode)),
        }
    }
}

/// The relational step meaning and the functional one agree: a step from a
/// well-formed machine lands exactly on `config_step` of its configuration.
pub proof fn lemma_step_matches_config(m: UM, p: u32, m2: UM, p2: u32, e: Effect)
    requires
        m.wf(),
        step_spec(m, p, m2, p2, e),
    ensures
        config_step(config_of(m, p)).0 == config_of(m2, p2),
        config_step(config_of(m, p)).1 == e,
{
}

/// The result of a bounded run: the final configuration, how much of the
/// input was consumed, the collected output, and how the run ended.
pub ghost struct RunResult {
    pub config: Config,
    pub consumed: int,
    pub output: Seq<u8>,
    pub status: RunStatus,
}

/// The meaning of a bounded run: at most `fuel` steps from `c`, reading
/// bytes of `input` from position `inpos` on and appending emitted bytes
/// to `output`.
pub open spec fn spec_run(c: Config, input: Seq<u8>, inpos: int, output: Seq<u8>, fuel: nat) -> RunResult
    decreases fuel,
{
    if fuel == 0 {
        RunResult { config: c, consumed: inpos, output, status: RunStatus::OutOfFuel }
    } else {
        let (c2, e) = config_step(c);
        match e {
            Effect::Proceed => spec_run(c2, input, inpos, output, (fuel - 1) as nat),
            Effect::Halt => RunResult {
                config: c2,
                consumed: inpos,
                output,
                status: RunStatus::Halted,
            },
            Effect::Emit(byte) => spec_run(c2, input, inpos, output.push(byte), (fuel - 1) as nat),
            Effect::ReadInto(target) => {
                let byte = if inpos < input.len() {
                    Some(input[inpos])
                } else {
                    None
                };
                let c3 = Config { regs: c2.regs.update(target as int, input_word(byte)), ..c2 };
                let next_pos = if inpos < input.len() {
                    inpos + 1
                } else {
                    inpos
                };
                spec_run(c3, input, next_pos, output, (fuel - 1) as nat)
            },
            Effect::Fault(t) => RunResult {
                config: c2,
                consumed: inpos,
                output,
                status: RunStatus::Faulted(t),
            },
        }
    }
}

/// The configuration of a machine freshly built from `program`.
pub open spec fn initial_config(program: Seq<u32>) -> Config {
    Config { regs: zero_words(8), heaps: seq![program], pool: Seq::<u32>::empty(), pc: 0 }
}

/// Runs the machine from `program` for at most `fuel` steps, reading input
/// bytes in order and collecting every emitted byte.  Returns the machine,
/// the final counter, the output and how the run ended, exactly as
/// `spec_run` foretells.
pub fn run(program: &Vec<u32>, input: &Vec<u8>, fuel: u32) -> (r: (UM, u32, Vec<u8>, RunStatus))
    requires
        program@.len() <= 0xFFFF_FFFF,
    ensures
        r.0.wf(),
        ({
            let rr = spec_run(initial_config(program@), input@, 0, Seq::<u8>::empty(), fuel as nat);
            &&& config_of(r.0, r.1) == rr.config
            &&& rr.consumed <= input@.len()
            &&& r.2@ == rr.output
            &&& r.3 == rr.status
        }),
{
    let ghost total = spec_run(initial_config(program@), input@, 0, Seq::<u8>::empty(), fuel as nat);
    let image = program.clone();
    proof {
        assert(image@ =~= program@);
    }
    let mut um = UM::new(image);
    let mut pc: u32 = 0;
    let mut output: Vec<u8> = Vec::new();
    let mut inpos: usize = 0;
    let mut left: u32 = fuel;
    proof {
        assert(config_of(um, pc) == initial_config(program@));
    }
    loop
        invariant
            um.wf(),
            inpos <= input@.len(),
            total == spec_run(initial_config(program@), input@, 0, Seq::<u8>::empty(), fuel as nat),
            spec_run(config_of(um, pc), input@, inpos as int, output@, left as nat) == total,
        decreases left,
    {
        if left == 0 {
            return (um, pc, output, RunStatus::OutOfFuel);
        }
        left = left - 1;
        let ghost pre = um;
        let ghost pre_pc = pc;
        let e = step(&mut um, &mut pc);
        proof {
            lemma_step_matches_config(pre, pre_pc, um, pc, e);
        }
        match e {
            Effect::Proceed => {},
            Effect::Halt => {
                return (um, pc, output, RunStatus::Halted);
            },
            Effect::Emit(byte) => {
                output.push(byte);
            },
            Effect::ReadInto(target) => {
                proof {
                    crate::machine::lemma_reg_fields_bounded(
                        pre.heaps()[0][pre_pc as int],
                    );
                }
                let byte: Option<u8> = if inpos < input.len() {
                    let b = input[inpos];
                    inpos = inpos + 1;
                    Some(b)
                } else {
                    None
                };
                provide_input(&mut um, target, byte);
            },
            Effect::Fault(t) => {
                return (um, pc, output, RunStatus::Faulted(t));
            },
        }
    }
}

/// One 32-bit word assembled from four bytes in big-endian order.
pub open spec fn word_of_be(b0: u8, b1: u8, b2: u8, b3: u8) -> u32 {
    (((b0 as int) * 0x100_0000 + (b1 as int) * 0x1_0000 + (b2 as int) * 0x100 + (
    b3 as int)) as u32)
}

/// Assembles a program image: each consecutive four bytes of `buf` become
/// one big-endian word; trailing bytes beyond a multiple of four are
/// dropped.
pub fn words_from_bytes(buf: &Vec<u8>) -> (words: Vec<u32>)
    ensures
        words@.len() == buf@.len() / 4,
        forall|i: int|
            0 <= i < words@.len() ==> words@[i] == word_of_be(
                buf@[4 * i],
                buf@[4 * i + 1],
                buf@[4 * i + 2],
                buf@[4 * i + 3],
            ),
{
    let count = buf.len() / 4;
    let mut words: Vec<u32> = Vec::new();
    let mut i: usize = 0;
    while i < count
        invariant
            buf@.len() <= usize::MAX,
            count == buf@.len() / 4,
            i <= count,
            words@.len() == i,
            forall|j: int|
                0 <= j < i ==> words@[j] == word_of_be(
                    buf@[4 * j],
                    buf@[4 * j + 1],
                    buf@[4 * j + 2],
                    buf@[4 * j + 3],
                ),
        decreases count - i,
    {
        proof {
            assert(4 * (buf@.len() / 4) <= buf@.len());
            assert(4 * i + 3 < buf@.len());
        }
        let b0 = buf[4 * i];
        let b1 = buf[4 * i + 1];
        let b2 = buf[4 * i + 2];
        let b3 = buf[4 * i + 3];
        let word = ((b0 as u32) << 24u32) | ((b1 as u32) << 16u32) | ((b2 as u32) << 8u32) | (
        b3 as u32);
        proof {
            assert(((b0 as u32) << 24u32) | ((b1 as u32) << 16u32) | ((b2 as u32) << 8u32) | (
            b3 as u32) == word_of_be(b0, b1, b2, b3)) by (bit_vector);
        }
        words.push(word);
        i = i + 1;
    }
    words
}

/// The in-band encoding of one read byte: the byte's value, or the all-ones
/// word at end of input.
pub open spec fn input_word(byte: Option<u8>) -> u32 {
    match byte {
        Some(v) => v as u32,
        None => 0xFFFF_FFFFu32,
    }
}

/// Finishes an Input instruction: stores the read byte, or the all-ones word
/// at end of input, into register `target`.
pub fn provide_input(um: &mut UM, target: u32, byte: Option<u8>)
    requires
        old(um).wf(),
        target < 8,
    ensures
        final(um).wf(),
        final(um).regs@ == old(um).regs@.update(target as int, input_word(byte)),
        mem_unchanged(*old(um), *final(um)),
{
    let value: u32 = match byte {
        Some(v) => v as u32,
        None => 0xFFFF_FFFF,
    };
    um.regs[target as usize] = value;
}

} // verus!
