use rum::machine::Instruction;
use rum::machine::Opcode;
use rum::machine::UM;
use rum::vm::run;
use rum::vm::step;
use rum::vm::words_from_bytes;
use rum::vm::Effect;
use rum::vm::RunStatus;
use rum::vm::Trap;

/// Drives the machine until it halts, faults or runs out of fuel, feeding
/// bytes from `input` and collecting emitted bytes.
fn run_vm(program: Vec<u32>, input: &[u8], fuel: u32) -> (UM, u32, Vec<u8>, RunStatus) {
    run(&program, &input.to_vec(), fuel)
}

#[test]
fn test_halt_immediately() {
    let (_, _, output, last) = run_vm(vec![0x7000_0000], &[], 10);
    assert_eq!(last, RunStatus::Halted);
    assert!(output.is_empty());
}

#[test]
fn test_load_value_then_output() {
    // Load-Value 0xD400_0041 targets register 2 (bits 25-27), so the Output
    // word names register 2 as well.
    let (um, _, output, last) = run_vm(vec![0xD400_0041, 0xA800_0002, 0x7000_0000], &[], 10);
    assert_eq!(um.regs[2], 0x41);
    assert_eq!(output, b"A".to_vec());
    assert_eq!(last, RunStatus::Halted);
}

#[test]
fn test_add_wraps_around() {
    // Nand R1 <- !(R0 & R0) puts all-ones in R1; R2 <- 1; Add R3 <- R1 + R2
    // wraps to zero; Output R3 emits the zero byte.
    let program = vec![0x6000_0040, 0xD400_0001, 0x3000_00CA, 0xA000_0003, 0x7000_0000];
    let (um, _, output, last) = run_vm(program, &[], 10);
    assert_eq!(um.regs[1], 0xFFFF_FFFF);
    assert_eq!(um.regs[3], 0);
    assert_eq!(output, vec![0u8]);
    assert_eq!(last, RunStatus::Halted);
}

#[test]
fn test_map_store_load_unmap() {
    // R7 <- 4; Map B=1 C=7; R3 <- 0x42; Store M[R1][R0] <- R3;
    // Load R4 <- M[R1][R0]; Unmap R1; Map B=5 C=7 reuses the identifier.
    let program = vec![
        0xDE00_0004,
        0x8000_000F,
        0xD600_0042,
        0x2000_0043,
        0x1000_0108,
        0x9000_0001,
        0x8000_002F,
        0x7000_0000,
    ];
    let (um, _, output, last) = run_vm(program, &[], 20);
    assert_eq!(um.regs[1], 1);
    assert_eq!(um.heap[1].len(), 4);
    assert_eq!(um.regs[4], 0x42);
    assert_eq!(um.regs[5], 1);
    assert!(output.is_empty());
    assert_eq!(last, RunStatus::Halted);
}

#[test]
fn test_load_program_self_jump() {
    // R0 <- 2; R1 <- 0; Load-Program B=R1 C=R0.  R1 is zero, so no copy is
    // made and only the counter moves, back to the Load-Program itself.
    let program = vec![0xD000_0002, 0xD200_0000, 0xC000_0008, 0x7000_0000, 0x7000_0000];
    let mut um = UM::new(program.clone());
    let mut pc: u32 = 0;
    assert_eq!(step(&mut um, &mut pc), Effect::Proceed);
    assert_eq!(step(&mut um, &mut pc), Effect::Proceed);
    assert_eq!(step(&mut um, &mut pc), Effect::Proceed);
    assert_eq!(pc, 2);
    assert_eq!(um.heap[0], program);
    assert_eq!(step(&mut um, &mut pc), Effect::Proceed);
    assert_eq!(pc, 2);
}

#[test]
fn test_input_eof() {
    // Input into R3 at end of input leaves all-ones; Output of a value
    // above 255 is skipped, so nothing is emitted.
    let program = vec![0xB000_0003, 0xA000_0003, 0x7000_0000];
    let (um, _, output, last) = run_vm(program, &[], 10);
    assert_eq!(um.regs[3], 0xFFFF_FFFF);
    assert!(output.is_empty());
    assert_eq!(last, RunStatus::Halted);
}

#[test]
fn test_input_reads_bytes_in_order() {
    let program = vec![0xB000_0003, 0xA000_0003, 0xB000_0003, 0xA000_0003, 0x7000_0000];
    let (_, _, output, last) = run_vm(program, b"hi", 20);
    assert_eq!(output, b"hi".to_vec());
    assert_eq!(last, RunStatus::Halted);
}

#[test]
fn test_output_out_of_range_skipped() {
    // R2 <- 0x141, above 255: the Output is silently skipped.
    let program = vec![0xD400_0141, 0xA800_0002, 0x7000_0000];
    let (_, _, output, last) = run_vm(program, &[], 10);
    assert!(output.is_empty());
    assert_eq!(last, RunStatus::Halted);
}

#[test]
fn test_divide_by_zero_trap() {
    let (_, _, _, last) = run_vm(vec![0x5000_0000], &[], 10);
    assert_eq!(last, RunStatus::Faulted(Trap::DivideByZero));
}

#[test]
fn test_undefined_opcode_trap() {
    let (_, _, _, last) = run_vm(vec![0xE000_0000], &[], 10);
    assert_eq!(last, RunStatus::Faulted(Trap::Decode));
}

#[test]
fn test_fetch_out_of_bounds_trap() {
    let (_, _, _, last) = run_vm(vec![0xD000_0002], &[], 10);
    assert_eq!(last, RunStatus::Faulted(Trap::FetchOutOfBounds));
}

#[test]
fn test_unmap_zero_trap() {
    let (_, _, _, last) = run_vm(vec![0x9000_0000], &[], 10);
    assert_eq!(last, RunStatus::Faulted(Trap::UnmapZero));
}

#[test]
fn test_load_out_of_bounds_trap() {
    // Load R4 <- M[R1][R0] with R1 naming no segment.
    let program = vec![0xD200_0007, 0x1000_0108];
    let (_, _, _, last) = run_vm(program, &[], 10);
    assert_eq!(last, RunStatus::Faulted(Trap::SegmentOutOfBounds));
}

#[test]
fn test_run_out_of_fuel() {
    // A loop that never halts: Load-Program B=R0 C=R0 jumps to offset 0
    // forever, so a bounded run ends with fuel spent and nothing emitted.
    let (_, pc, output, last) = run_vm(vec![0xC000_0000], &[], 7);
    assert_eq!(last, RunStatus::OutOfFuel);
    assert_eq!(pc, 0);
    assert!(output.is_empty());
}

#[test]
fn test_words_from_bytes_big_endian() {
    let buf = vec![0x12u8, 0x34, 0x56, 0x78, 0xAA];
    let words = words_from_bytes(&buf);
    assert_eq!(words, vec![0x1234_5678]);
}

#[test]
fn test_getu_fits_in_width() {
    assert_eq!(rum::bitpack::getu(0xFFFF_FFFF, 8, 4), 0xFF);
    assert!(rum::bitpack::getu(0xDEAD_BEEF, 5, 7) < 32);
    assert_eq!(rum::bitpack::getu(0xDEAD_BEEF, 32, 0), 0xDEAD_BEEF);
    assert_eq!(rum::bitpack::getu(0xDEAD_BEEF, 0, 13), 0);
}

#[test]
fn test_nand_synthesizes_not_and_or() {
    let x: u32 = 0b1100;
    let y: u32 = 0b1010;
    let mut um = UM::new(vec![0x7000_0000]);
    let nand = |um: &mut UM, a: u32, b: u32, c: u32| {
        um.nand(Instruction { opcode: Opcode::Nand, a, b, c, v: 0 });
    };
    um.regs[1] = x;
    um.regs[2] = y;
    // NOT x as Nand(x, x).
    nand(&mut um, 3, 1, 1);
    assert_eq!(um.regs[3], !x);
    // AND as the Nand of a Nand with itself.
    nand(&mut um, 4, 1, 2);
    nand(&mut um, 5, 4, 4);
    assert_eq!(um.regs[5], x & y);
    // OR as the Nand of the two self-Nands.
    nand(&mut um, 4, 1, 1);
    nand(&mut um, 5, 2, 2);
    nand(&mut um, 6, 4, 5);
    assert_eq!(um.regs[6], x | y);
}

#[test]
fn test_mul_wraps_around() {
    let mut um = UM::new(vec![0x7000_0000]);
    um.regs[1] = 0x8000_0000;
    um.regs[2] = 2;
    um.mul(Instruction { opcode: Opcode::Mul, a: 3, b: 1, c: 2, v: 0 });
    assert_eq!(um.regs[3], 0);
    um.regs[1] = 0x1_0001;
    um.regs[2] = 0x1_0001;
    um.mul(Instruction { opcode: Opcode::Mul, a: 4, b: 1, c: 2, v: 0 });
    assert_eq!(um.regs[4], 0x0002_0001);
}

#[test]
fn test_map_zero_length_segment_is_live() {
    let mut um = UM::new(vec![0x7000_0000]);
    um.regs[7] = 0;
    um.map_s(Instruction { opcode: Opcode::MapSegment, a: 0, b: 1, c: 7, v: 0 });
    assert_eq!(um.regs[1], 1);
    assert_eq!(um.heap[1].len(), 0);
    assert!(um.check_live(1));
}

#[test]
fn test_segment_accounting_concrete() {
    // Two maps and one unmap: three slots, one pooled, two live.
    let mut um = UM::new(vec![0x7000_0000]);
    um.regs[7] = 3;
    um.map_s(Instruction { opcode: Opcode::MapSegment, a: 0, b: 1, c: 7, v: 0 });
    um.map_s(Instruction { opcode: Opcode::MapSegment, a: 0, b: 2, c: 7, v: 0 });
    um.regs[6] = um.regs[1];
    um.unmap_s(Instruction { opcode: Opcode::UnmapSegment, a: 0, b: 0, c: 6, v: 0 });
    assert_eq!(um.heap.len(), 3);
    assert_eq!(um.free_identifiers.len(), 1);
    let live = (0..um.heap.len() as u32).filter(|&id| um.check_live(id)).count();
    assert_eq!(live, 2);
    assert_eq!(live + um.free_identifiers.len(), um.heap.len());
    assert!(um.check_live(0));
}

#[test]
fn test_load_program_copies_and_is_idempotent() {
    // A mapped segment holding a Halt replaces segment 0; copying it twice
    // changes nothing, and the source stays intact.
    let mut um = UM::new(vec![0xD000_0002, 0xD000_0002]);
    um.regs[7] = 1;
    um.map_s(Instruction { opcode: Opcode::MapSegment, a: 0, b: 1, c: 7, v: 0 });
    um.regs[3] = 0x7000_0000;
    um.s_store(Instruction { opcode: Opcode::Store, a: 1, b: 0, c: 3, v: 0 });
    let pc = um.load_program(Instruction { opcode: Opcode::LoadProgram, a: 0, b: 1, c: 5, v: 0 });
    assert_eq!(pc, um.regs[5] as usize);
    assert_eq!(um.heap[0], vec![0x7000_0000]);
    assert_eq!(um.heap[1], vec![0x7000_0000]);
    let first = um.heap[0].clone();
    um.load_program(Instruction { opcode: Opcode::LoadProgram, a: 0, b: 1, c: 5, v: 0 });
    assert_eq!(um.heap[0], first);
    assert_eq!(um.heap[1], vec![0x7000_0000]);
}
