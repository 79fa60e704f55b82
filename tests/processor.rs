use evita::bpu::hardware::{Head, InstructionSet, Memory, Register};
use evita::bpu::processor::{Bpu, Draws};
use evita::bpu::replication::{divide, Frameshift};

use InstructionSet::{
    ADD, DEC, GETHEAD, HALLOC, HCOPY, HDIVIDE, HSEARCH, IFLABEL, IFLESS, IFNEQU, INC, IO, JMPHEAD,
    LSHIFT, MOVHEAD, NAND, NOP, POP, PUSH, RSHIFT, SETFLOW, SUB, SWAP, SWAPSTK,
};

fn bpu_of(cells: Vec<Option<InstructionSet>>) -> Bpu {
    Bpu::new(Memory::with_cells(cells).unwrap())
}

fn calm() -> Draws {
    Draws { mutation: None, frameshift: None }
}

fn run(b: &mut Bpu, steps: usize) {
    for _ in 0..steps {
        assert!(b.step_with(calm()).is_none());
    }
}

fn contents(m: &Memory) -> Vec<Option<InstructionSet>> {
    (0..m.memsize()).map(|i| m.get(i)).collect()
}

#[test]
fn fresh_processor_is_zeroed() {
    let b = bpu_of(vec![Some(INC), None]);
    assert_eq!(b.register(Register::AX), 0);
    assert_eq!(b.register(Register::BX), 0);
    assert_eq!(b.register(Register::CX), 0);
    for h in [Head::IP, Head::RH, Head::WH, Head::FH] {
        assert_eq!(b.head(h), 0);
    }
    assert_eq!(b.current_register(), Register::AX);
    assert_eq!(b.memsize(), 2);
    assert_eq!(b.last_output(), None);
}

#[test]
fn blank_cell_advances_ip_round_the_ring() {
    let mut b = bpu_of(vec![None, None, None]);
    run(&mut b, 2);
    assert_eq!(b.head(Head::IP), 2);
    run(&mut b, 1);
    assert_eq!(b.head(Head::IP), 0);
}

#[test]
fn nop_is_a_no_op() {
    let mut b = bpu_of(vec![Some(NOP(Register::CX)), Some(NOP(Register::BX)), Some(INC)]);
    run(&mut b, 2);
    assert_eq!(b.current_register(), Register::AX);
    assert_eq!(b.register(Register::AX), 0);
    assert_eq!(b.register(Register::BX), 0);
    assert_eq!(b.register(Register::CX), 0);
    assert_eq!(b.head(Head::IP), 2);
    run(&mut b, 1);
    assert_eq!(b.register(Register::AX), 1);
}

#[test]
fn select_register_directs_inc_dec() {
    let mut b = bpu_of(vec![Some(INC), Some(INC), Some(DEC)]);
    b.select_register(Register::CX);
    run(&mut b, 2);
    b.select_register(Register::BX);
    run(&mut b, 1);
    assert_eq!(b.current_register(), Register::BX);
    assert_eq!(b.register(Register::CX), 2);
    assert_eq!(b.register(Register::BX), -1);
    assert_eq!(b.register(Register::AX), 0);
}

#[test]
fn arithmetic_wraps_at_i32_bounds() {
    let mut cells = vec![Some(INC)];
    cells.extend(vec![Some(LSHIFT); 31]);
    cells.push(Some(DEC));
    cells.push(Some(INC));
    let mut b = bpu_of(cells);
    run(&mut b, 32);
    assert_eq!(b.register(Register::AX), i32::MIN);
    run(&mut b, 1);
    assert_eq!(b.register(Register::AX), i32::MAX);
    run(&mut b, 1);
    assert_eq!(b.register(Register::AX), i32::MIN);
}

#[test]
fn sub_uses_bx_minus_cx() {
    let mut b = bpu_of(vec![Some(INC), Some(INC), Some(SUB)]);
    b.select_register(Register::CX);
    run(&mut b, 2);
    b.select_register(Register::AX);
    run(&mut b, 1);
    assert_eq!(b.register(Register::AX), -2);
}

#[test]
fn ifnequ_skips_when_equal() {
    let mut b = bpu_of(vec![Some(IFNEQU), Some(INC), Some(DEC), None]);
    run(&mut b, 1);
    assert_eq!(b.head(Head::IP), 2);
    run(&mut b, 1);
    assert_eq!(b.register(Register::AX), -1);
}

#[test]
fn ifnequ_runs_next_when_different() {
    let mut b = bpu_of(vec![Some(INC), Some(IFNEQU), Some(INC), None]);
    run(&mut b, 3);
    assert_eq!(b.register(Register::AX), 2);
    assert_eq!(b.head(Head::IP), 3);
}

#[test]
fn ifless_skips_when_less() {
    let mut b = bpu_of(vec![Some(DEC), Some(IFLESS), Some(INC), Some(INC)]);
    run(&mut b, 2);
    assert_eq!(b.head(Head::IP), 3);
    let mut c = bpu_of(vec![Some(IFLESS), Some(INC), None]);
    run(&mut c, 1);
    assert_eq!(c.head(Head::IP), 1);
}

#[test]
fn push_pop_and_swap_stacks() {
    let mut b = bpu_of(vec![
        Some(INC),
        Some(PUSH),
        Some(INC),
        Some(SWAPSTK),
        Some(POP),
        Some(SWAPSTK),
        Some(POP),
        Some(POP),
    ]);
    run(&mut b, 4);
    assert_eq!(b.register(Register::AX), 2);
    run(&mut b, 1);
    // second stack is empty: POP leaves AX as it is
    assert_eq!(b.register(Register::AX), 2);
    run(&mut b, 2);
    assert_eq!(b.register(Register::AX), 1);
    run(&mut b, 1);
    assert_eq!(b.register(Register::AX), 1);
}

#[test]
fn swap_exchanges_with_complement() {
    let mut b = bpu_of(vec![Some(INC), Some(INC), Some(SWAP), None]);
    run(&mut b, 3);
    assert_eq!(b.register(Register::AX), 0);
    assert_eq!(b.register(Register::BX), 2);
}

#[test]
fn add_sub_nand_use_bx_and_cx() {
    let mut b = bpu_of(vec![Some(INC), Some(INC), Some(INC), Some(INC), Some(ADD), Some(SUB), Some(NAND)]);
    b.select_register(Register::BX);
    run(&mut b, 3);
    b.select_register(Register::CX);
    run(&mut b, 1);
    b.select_register(Register::AX);
    run(&mut b, 1);
    assert_eq!(b.register(Register::AX), 4);
    b.select_register(Register::CX);
    run(&mut b, 1);
    assert_eq!(b.register(Register::CX), 2);
    b.select_register(Register::AX);
    run(&mut b, 1);
    assert_eq!(b.register(Register::AX), !(3 & 2));
}

#[test]
fn shifts_act_on_current_register() {
    let mut b = bpu_of(vec![Some(DEC), Some(DEC), Some(DEC), Some(RSHIFT), Some(LSHIFT), Some(LSHIFT)]);
    run(&mut b, 4);
    assert_eq!(b.register(Register::AX), -2);
    run(&mut b, 2);
    assert_eq!(b.register(Register::AX), -8);
}

#[test]
fn setflow_takes_complement_modulo_length() {
    // BX = -1, SETFLOW with AX active puts FH at -1 mod 5 = 4
    let mut b = bpu_of(vec![Some(DEC), Some(SETFLOW), None, None, None]);
    b.select_register(Register::BX);
    run(&mut b, 1);
    b.select_register(Register::AX);
    run(&mut b, 1);
    assert_eq!(b.head(Head::FH), 4);
}

#[test]
fn jmphead_and_gethead() {
    // CX = 7 on a tape of 10: RH jumps to 7; GETHEAD reads RH back into CX
    let mut cells = vec![Some(INC); 7];
    cells.push(Some(JMPHEAD));
    cells.push(Some(GETHEAD));
    cells.push(None);
    let mut b = bpu_of(cells);
    b.select_register(Register::CX);
    run(&mut b, 7);
    assert_eq!(b.register(Register::CX), 7);
    b.select_register(Register::BX);
    run(&mut b, 1);
    assert_eq!(b.head(Head::RH), 7);
    b.select_register(Register::BX);
    run(&mut b, 1);
    assert_eq!(b.register(Register::CX), 7);
    assert_eq!(b.head(Head::WH), 0);
    let mut s = bpu_of(vec![Some(INC), Some(INC), Some(INC), Some(JMPHEAD), None]);
    s.select_register(Register::CX);
    run(&mut s, 4);
    assert_eq!(s.head(Head::WH), 3);
    let mut t = bpu_of(vec![Some(DEC), Some(JMPHEAD), None]);
    t.select_register(Register::CX);
    run(&mut t, 2);
    assert_eq!(t.head(Head::WH), 2);
}

#[test]
fn movhead_moves_to_flow_head() {
    let cells = vec![Some(INC), Some(INC), Some(INC), Some(SETFLOW), Some(MOVHEAD), None, None];
    let mut b = bpu_of(cells.clone());
    b.select_register(Register::CX);
    run(&mut b, 3);
    // BX active: complement CX = 3, so FH = 3
    b.select_register(Register::BX);
    run(&mut b, 1);
    assert_eq!(b.head(Head::FH), 3);
    b.select_register(Register::CX);
    run(&mut b, 1);
    assert_eq!(b.head(Head::WH), 3);
    let mut c = bpu_of(cells);
    c.select_register(Register::CX);
    run(&mut c, 3);
    c.select_register(Register::BX);
    run(&mut c, 1);
    // AX active: IP moves to FH = 3, then on to 4
    c.select_register(Register::AX);
    run(&mut c, 1);
    assert_eq!(c.head(Head::IP), 4);
}

#[test]
fn io_emits_and_loads() {
    let mut b = bpu_of(vec![Some(INC), Some(IO), Some(IO)]);
    b.feed_input(42);
    run(&mut b, 2);
    assert_eq!(b.last_output(), Some(1));
    assert_eq!(b.register(Register::AX), 42);
    b.feed_input(-5);
    run(&mut b, 1);
    assert_eq!(b.last_output(), Some(42));
    assert_eq!(b.register(Register::AX), -5);
}

#[test]
fn halloc_doubles_tape_of_hundred() {
    let mut cells = vec![None; 100];
    cells[0] = Some(HALLOC);
    let mut b = bpu_of(cells);
    run(&mut b, 1);
    assert_eq!(b.memsize(), 200);
    assert_eq!(b.memory().get(0), Some(HALLOC));
    for i in 100..200 {
        assert_eq!(b.memory().get(i), None);
    }
    assert_eq!(b.head(Head::IP), 1);
}

#[test]
fn hsearch_without_template() {
    let mut b = bpu_of(vec![Some(INC), Some(INC), Some(HSEARCH), Some(INC)]);
    b.select_register(Register::BX);
    run(&mut b, 1);
    b.select_register(Register::CX);
    run(&mut b, 1);
    assert_eq!(b.register(Register::BX), 1);
    assert_eq!(b.register(Register::CX), 1);
    b.select_register(Register::AX);
    run(&mut b, 1);
    assert_eq!(b.register(Register::BX), 0);
    assert_eq!(b.register(Register::CX), 0);
    assert_eq!(b.head(Head::FH), 2);
    assert_eq!(b.head(Head::IP), 3);
}

#[test]
fn hsearch_finds_complement_template() {
    let mut b = bpu_of(vec![
        Some(NOP(Register::AX)),
        Some(NOP(Register::BX)),
        Some(HSEARCH),
        Some(NOP(Register::AX)),
        Some(NOP(Register::BX)),
        Some(INC),
        Some(DEC),
        Some(NOP(Register::BX)),
        Some(NOP(Register::CX)),
        Some(INC),
    ]);
    run(&mut b, 3);
    // the complement of AX BX is BX CX, found at 7; FH lands just past it
    assert_eq!(b.head(Head::FH), 9);
    assert_eq!(b.register(Register::BX), 7);
    assert_eq!(b.register(Register::CX), 2);
    assert_eq!(b.head(Head::IP), 5);
}

#[test]
fn hsearch_wraps_round_the_tape() {
    let mut b = bpu_of(vec![
        Some(NOP(Register::CX)),
        Some(INC),
        Some(NOP(Register::AX)),
        Some(HSEARCH),
        Some(NOP(Register::BX)),
        Some(INC),
    ]);
    run(&mut b, 4);
    // template BX, complement CX, found at 0 after wrapping; FH = 1
    assert_eq!(b.head(Head::FH), 1);
    assert_eq!(b.register(Register::BX), 4);
    assert_eq!(b.register(Register::CX), 1);
}

#[test]
fn hsearch_with_no_match_behaves_as_empty_template() {
    let mut b = bpu_of(vec![Some(HSEARCH), Some(NOP(Register::AX)), Some(INC), Some(DEC)]);
    run(&mut b, 1);
    assert_eq!(b.register(Register::BX), 0);
    assert_eq!(b.register(Register::CX), 0);
    assert_eq!(b.head(Head::FH), 0);
    assert_eq!(b.head(Head::IP), 2);
}

#[test]
fn hcopy_copies_and_advances() {
    // RH = 0, WH = 4: copy cells 0 and 1 onto 4 and 5
    let mut cells = vec![Some(INC); 4];
    cells.push(Some(JMPHEAD));
    cells.push(Some(HCOPY));
    cells.push(Some(HCOPY));
    cells.extend(vec![None; 4]);
    let mut b = bpu_of(cells);
    b.select_register(Register::CX);
    run(&mut b, 5);
    assert_eq!(b.head(Head::WH), 4);
    run(&mut b, 2);
    assert_eq!(b.memory().get(4), Some(INC));
    assert_eq!(b.memory().get(5), Some(INC));
    assert_eq!(b.memory().get(6), Some(HCOPY));
    assert_eq!(b.head(Head::RH), 2);
    assert_eq!(b.head(Head::WH), 6);
}

#[test]
fn hcopy_with_mutation_writes_the_draw() {
    let mut b = bpu_of(vec![Some(HCOPY), None]);
    let d = Draws { mutation: Some(NAND), frameshift: None };
    assert!(b.step_with(d).is_none());
    assert_eq!(b.memory().get(0), Some(NAND));
    assert_eq!(b.head(Head::RH), 1);
    assert_eq!(b.head(Head::WH), 1);
}

#[test]
fn iflabel_finds_complement_in_copied_region() {
    // copy NOP(BX) onto cell 0 of the region, then test label NOP(AX)
    let cells = vec![
        Some(NOP(Register::BX)),
        Some(HCOPY),
        Some(IFLABEL),
        Some(NOP(Register::AX)),
        Some(INC),
        Some(INC),
        None,
        None,
    ];
    let mut b = bpu_of(cells);
    run(&mut b, 3);
    // the complement BX stands in the copied region: the INC after the template runs
    assert_eq!(b.head(Head::IP), 4);
    let mut c = bpu_of(vec![
        Some(NOP(Register::BX)),
        Some(HCOPY),
        Some(IFLABEL),
        Some(NOP(Register::BX)),
        Some(INC),
        Some(INC),
        None,
        None,
    ]);
    run(&mut c, 3);
    // complement CX is not in the region: the INC is skipped
    assert_eq!(c.head(Head::IP), 5);
}

#[test]
fn hdivide_splits_tape() {
    let mut cells = vec![Some(INC), Some(INC), Some(INC), Some(JMPHEAD)];
    cells.extend(vec![Some(INC); 5]);
    cells.push(Some(JMPHEAD));
    cells.push(Some(HDIVIDE));
    cells.extend(vec![None; 9]);
    assert_eq!(cells.len(), 20);
    let mut b = bpu_of(cells);
    b.select_register(Register::CX);
    run(&mut b, 3);
    b.select_register(Register::BX);
    run(&mut b, 1);
    b.select_register(Register::CX);
    run(&mut b, 6);
    assert_eq!(b.head(Head::RH), 3);
    assert_eq!(b.head(Head::WH), 8);
    let off = b.step_with(calm()).unwrap();
    assert_eq!(b.memsize(), 3);
    assert_eq!(off.memsize(), 5);
    assert_eq!(contents(&off), vec![Some(JMPHEAD), Some(INC), Some(INC), Some(INC), Some(INC)]);
    assert_eq!(contents(b.memory()), vec![Some(INC), Some(INC), Some(INC)]);
    assert_eq!(b.head(Head::IP), 0);
    assert_eq!(b.register(Register::CX), 0);
}

#[test]
fn hdivide_with_equal_heads_gives_no_offspring() {
    let mut b = bpu_of(vec![Some(HDIVIDE), Some(INC)]);
    assert!(b.step_with(calm()).is_none());
    assert_eq!(b.memsize(), 0);
}

#[test]
fn divide_compacts_blanks() {
    let m = Memory::with_cells(vec![
        Some(INC),
        None,
        Some(DEC),
        None,
        Some(ADD),
        None,
        Some(SUB),
        Some(NAND),
    ])
    .unwrap();
    let (p, o) = divide(&m, 3, 7, None);
    assert_eq!(contents(&p), vec![Some(INC), Some(DEC)]);
    assert_eq!(contents(&o.unwrap()), vec![Some(ADD), Some(SUB)]);
    let (p2, o2) = divide(&m, 7, 3, None);
    assert_eq!(p2.memsize(), 4);
    assert_eq!(o2.unwrap().memsize(), 2);
    let (_, none) = divide(&m, 5, 6, None);
    assert!(none.is_none());
}

#[test]
fn divide_applies_frameshift() {
    let m = Memory::with_cells(vec![Some(INC), Some(DEC), Some(ADD), Some(SUB)]).unwrap();
    let ins = Frameshift { position: 1, insert: Some(NAND) };
    let (_, o) = divide(&m, 1, 4, Some(ins));
    assert_eq!(contents(&o.unwrap()), vec![Some(DEC), Some(NAND), Some(ADD), Some(SUB)]);
    let del = Frameshift { position: 0, insert: None };
    let (_, o) = divide(&m, 1, 4, Some(del));
    assert_eq!(contents(&o.unwrap()), vec![Some(ADD), Some(SUB)]);
    let out = Frameshift { position: 9, insert: None };
    let (_, o) = divide(&m, 1, 4, Some(out));
    assert_eq!(o.unwrap().memsize(), 3);
}

#[test]
fn step_draws_and_keeps_heads_on_tape() {
    let mut b = bpu_of(vec![
        Some(HALLOC),
        Some(HCOPY),
        Some(HCOPY),
        Some(INC),
        Some(JMPHEAD),
        Some(HDIVIDE),
    ]);
    for _ in 0..50 {
        b.step();
        let n = b.memsize();
        for h in [Head::IP, Head::RH, Head::WH, Head::FH] {
            assert!(b.head(h) < n || (n == 0 && b.head(h) == 0));
        }
    }
}
