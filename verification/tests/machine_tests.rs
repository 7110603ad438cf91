use rum::bitpack::getu;
use rum::machine::Instruction;
use rum::machine::Opcode;
use rum::machine::UM;

#[test]
fn test_parse_inst_a() {
    let inst_b: u32 = 0b10000000_00000000_00000000_01000111_u32;
    let inst = Instruction {
        opcode: Opcode::MapSegment,
        a: getu(inst_b, 3, 6),
        b: 0,
        c: getu(inst_b, 3, 0),
        v: 0,
    };

    assert_eq!(inst.a, 1)
}

#[test]
fn test_parse_inst_b() {
    let inst_b: u32 = 0b10000000_00000000_00000000_00001111_u32;
    let inst = Instruction {
        opcode: Opcode::MapSegment,
        a: 0,
        b: getu(inst_b, 3, 3),
        c: getu(inst_b, 3, 0),
        v: 0,
    };

    assert_eq!(inst.b, 1)
}

#[test]
fn test_parse_inst_c() {
    let inst_b: u32 = 0b10000000_00000000_00000000_00000111_u32;
    let inst = Instruction {
        opcode: Opcode::MapSegment,
        a: 0,
        b: 0,
        c: getu(inst_b, 3, 0),
        v: 0,
    };

    assert_eq!(inst.c, 7)
}

#[test]
fn test_parse_v() {
    let inst_b: u32 = 0b11010010_00000000_00000000_00000011_u32;
    let inst = Instruction {
        opcode: Opcode::LoadValue,
        a: 0,
        b: 0,
        c: 0,
        v: getu(inst_b, 25, 0),
    };

    assert_eq!(inst.v, 3)
}

#[test]
fn test_map() {
    let inst_b: u32 = 0b10000000_00000000_00000000_00001111_u32;
    let inst = Instruction {
        opcode: Opcode::MapSegment,
        a: 0,
        b: 1,
        c: getu(inst_b, 3, 0),
        v: 0,
    };
    let mut inst_in_mem = vec![];
    inst_in_mem.push(inst_b);
    let mut um = UM::new(inst_in_mem);
    um.regs[7] = 4;
    um.map_s(inst);

    assert_eq!(um.heap[1].len(), 4)
}

#[test]
fn test_store() {
    let inst_b: u32 = 0b10000000_00000000_00000000_00001111_u32;
    let inst = Instruction {
        opcode: Opcode::MapSegment,
        a: 0,
        b: 1,
        c: getu(inst_b, 3, 0),
        v: 0,
    };
    let inst2 = Instruction {
        opcode: Opcode::Store,
        a: 1,
        b: 2,
        c: getu(inst_b, 3, 0),
        v: 0,
    };
    let mut inst_in_mem = vec![];
    inst_in_mem.push(inst_b);
    let mut um = UM::new(inst_in_mem);
    um.regs[7] = 4;
    um.regs[1] = 1;
    um.regs[2] = 3;
    um.map_s(inst);
    um.s_store(inst2);

    assert_eq!(um.heap[1][3], 4);
}

#[test]
fn test_nand() {
    let inst = Instruction {
        opcode: Opcode::Nand,
        a: 1,
        b: 3,
        c: 3,
        v: 0,
    };
    let inst_b: u32 = 0b01100000_00000000_00000000_01011011_u32;
    let mut inst_in_mem = vec![];
    inst_in_mem.push(inst_b);
    let mut um = UM::new(inst_in_mem);

    um.regs[inst.b as usize] = 255;
    um.nand(inst);

    assert_eq!(um.regs[1], 0b11111111_11111111_11111111_00000000_u32);
}

#[test]
fn test_load() {
    let inst_b: u32 = 0b11010010_00000000_00000000_00000011_u32;
    let inst = Instruction {
        opcode: Opcode::LoadValue,
        a: 1,
        b: 0,
        c: 0,
        v: getu(inst_b, 25, 0),
    };

    let mut insts = vec![];
    insts.push(inst_b);
    let mut um = UM::new(insts);

    um.load_value(inst);

    assert_eq!(um.regs[1], 3);
}

#[test]
fn test_unmap() {
    let inst_b: u32 = 0b10000000_00000000_00000000_00001111_u32;
    let inst = Instruction {
        opcode: Opcode::MapSegment,
        a: 0,
        b: 1,
        c: getu(inst_b, 3, 0),
        v: 0,
    };
    let mut inst_in_mem = vec![];
    inst_in_mem.push(inst_b);
    let mut um = UM::new(inst_in_mem);
    um.regs[7] = 4;
    um.map_s(inst);

    assert_eq!(um.heap[1].len(), 4)
}
