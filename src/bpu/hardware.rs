use vstd::prelude::*;

use crate::bpu::chance::{draw_below, draw_ratio};
use crate::bpu::constants::{
    MAX_TAPE_SIZE, OFFSPRING_MAX_GROWTH, POINT_MUTATION_DENOMINATOR, POINT_MUTATION_NUMERATOR,
};

verus! {

/// The three registers of the processor.
#[derive(PartialEq, Eq, Structural, PartialOrd, Ord, Clone, Copy, Debug)]
pub enum Register {
    AX,
    BX,
    CX,
}

/// The four heads that move over a tape.
#[derive(PartialEq, Eq, Structural, PartialOrd, Ord, Clone, Copy, Debug)]
pub enum Head {
    /// Instruction pointer.
    IP,
    /// Read head.
    RH,
    /// Write head.
    WH,
    /// Floating head, a scratch position for searches and copies.
    FH,
}

/// The complement of a register: AX to BX, BX to CX, CX to AX.
pub open spec fn complement(r: Register) -> Register {
    match r {
        Register::AX => Register::BX,
        Register::BX => Register::CX,
        Register::CX => Register::AX,
    }
}

/// The head that a register selects: AX the IP, BX the RH, CX the WH.
pub open spec fn head_of(r: Register) -> Head {
    match r {
        Register::AX => Head::IP,
        Register::BX => Head::RH,
        Register::CX => Head::WH,
    }
}

impl Register {
    pub fn get_complement(&self) -> (r: Register)
        ensures
            r == complement(*self),
    {
        match *self {
            Register::AX => Register::BX,
            Register::BX => Register::CX,
            Register::CX => Register::AX,
        }
    }

    pub fn resolve_head(&self) -> (h: Head)
        ensures
            h == head_of(*self),
    {
        match *self {
            Register::AX => Head::IP,
            Register::BX => Head::RH,
            Register::CX => Head::WH,
        }
    }
}

/// Taking the complement three times gives the register back, and a
/// register, its complement and the complement of that are all different.
pub proof fn lemma_complement_cycle(r: Register)
    ensures
        complement(complement(complement(r))) == r,
        r != complement(r),
        complement(r) != complement(complement(r)),
        r != complement(complement(r)),
{
}

/// Distinct registers select distinct heads, each register selects one of
/// IP, RH and WH, and each of those is selected by some register; the
/// floating head is selected by none.
pub proof fn lemma_resolve_head_bijection(a: Register, b: Register)
    ensures
        a != b ==> head_of(a) != head_of(b),
        head_of(a) == Head::IP || head_of(a) == Head::RH || head_of(a) == Head::WH,
        head_of(a) != Head::FH,
        head_of(Register::AX) == Head::IP,
        head_of(Register::BX) == Head::RH,
        head_of(Register::CX) == Head::WH,
{
}

/// The instructions that a tape cell can hold.
#[derive(PartialEq, Eq, Structural, PartialOrd, Ord, Clone, Copy, Debug)]
pub enum InstructionSet {
    /// A no-op; its register serves only as a template token.
    NOP(Register),
    /// Skips the next instruction when the current register equals its
    /// complement.
    IFNEQU,
    /// Skips the next instruction when the current register is below its
    /// complement.
    IFLESS,
    /// Pops the active stack into the current register.
    POP,
    /// Pushes the current register onto the active stack.
    PUSH,
    /// Exchanges the current register with its complement.
    SWAP,
    /// Makes the other stack the active one.
    SWAPSTK,
    /// Adds one to the current register.
    INC,
    /// Subtracts one from the current register.
    DEC,
    /// Current register = BX + CX.
    ADD,
    /// Current register = BX - CX.
    SUB,
    /// Shifts the current register right by one bit.
    RSHIFT,
    /// Shifts the current register left by one bit.
    LSHIFT,
    /// Current register = !(BX & CX).
    NAND,
    /// FH = complement register modulo the tape length.
    SETFLOW,
    /// Moves the head of the current register to FH.
    MOVHEAD,
    /// Moves the head of the current register to CX modulo the tape length.
    JMPHEAD,
    /// CX = position of the head of the current register.
    GETHEAD,
    /// Runs the instruction after the following template only if its
    /// complement lies in the last copied region.
    IFLABEL,
    /// Emits the current register and loads it from the input.
    IO,
    /// Grows the tape for an offspring.
    HALLOC,
    /// Splits the tape into parent, offspring and discarded regions.
    HDIVIDE,
    /// Copies the cell at RH to WH, possibly mutated, and advances both.
    HCOPY,
    /// Searches for the complement of the following template.
    HSEARCH,
    /// Reserved for extensions; does nothing.
    LEARN,
}

/// The number of distinct instructions.
pub const INSTRUCTION_COUNT: usize = 27;

/// The instructions listed in a fixed order: the three NOPs first, by
/// register, then the others in the order of their declaration.
pub open spec fn instruction_at(k: usize) -> InstructionSet {
    match k {
        0 => InstructionSet::NOP(Register::AX),
        1 => InstructionSet::NOP(Register::BX),
        2 => InstructionSet::NOP(Register::CX),
        3 => InstructionSet::IFNEQU,
        4 => InstructionSet::IFLESS,
        5 => InstructionSet::POP,
        6 => InstructionSet::PUSH,
        7 => InstructionSet::SWAP,
        8 => InstructionSet::SWAPSTK,
        9 => InstructionSet::INC,
        10 => InstructionSet::DEC,
        11 => InstructionSet::ADD,
        12 => InstructionSet::SUB,
        13 => InstructionSet::RSHIFT,
        14 => InstructionSet::LSHIFT,
        15 => InstructionSet::NAND,
        16 => InstructionSet::SETFLOW,
        17 => InstructionSet::MOVHEAD,
        18 => InstructionSet::JMPHEAD,
        19 => InstructionSet::GETHEAD,
        20 => InstructionSet::IFLABEL,
        21 => InstructionSet::IO,
        22 => InstructionSet::HALLOC,
        23 => InstructionSet::HDIVIDE,
        24 => InstructionSet::HCOPY,
        25 => InstructionSet::HSEARCH,
        _ => InstructionSet::LEARN,
    }
}

/// The instruction with number `k` in the fixed listing.
pub fn instruction_from_index(k: usize) -> (r: InstructionSet)
    requires
        k < INSTRUCTION_COUNT,
    ensures
        r == instruction_at(k),
{
    match k {
        0 => InstructionSet::NOP(Register::AX),
        1 => InstructionSet::NOP(Register::BX),
        2 => InstructionSet::NOP(Register::CX),
        3 => InstructionSet::IFNEQU,
        4 => InstructionSet::IFLESS,
        5 => InstructionSet::POP,
        6 => InstructionSet::PUSH,
        7 => InstructionSet::SWAP,
        8 => InstructionSet::SWAPSTK,
        9 => InstructionSet::INC,
        10 => InstructionSet::DEC,
        11 => InstructionSet::ADD,
        12 => InstructionSet::SUB,
        13 => InstructionSet::RSHIFT,
        14 => InstructionSet::LSHIFT,
        15 => InstructionSet::NAND,
        16 => InstructionSet::SETFLOW,
        17 => InstructionSet::MOVHEAD,
        18 => InstructionSet::JMPHEAD,
        19 => InstructionSet::GETHEAD,
        20 => InstructionSet::IFLABEL,
        21 => InstructionSet::IO,
        22 => InstructionSet::HALLOC,
        23 => InstructionSet::HDIVIDE,
        24 => InstructionSet::HCOPY,
        25 => InstructionSet::HSEARCH,
        _ => InstructionSet::LEARN,
    }
}

} // verus!

verus! {

/// A tape cell: an instruction, or `None` for a blank cell.
pub type Cell = Option<InstructionSet>;

/// The length of a tape of length `n` after one allocation: doubled, but
/// never past `MAX_TAPE_SIZE`, and never shorter than before.
pub open spec fn grown_len(n: nat) -> nat {
    if n >= MAX_TAPE_SIZE {
        n
    } else if OFFSPRING_MAX_GROWTH * n <= MAX_TAPE_SIZE {
        (OFFSPRING_MAX_GROWTH * n) as nat
    } else {
        MAX_TAPE_SIZE as nat
    }
}

/// The length of a tape of length `n` after `k` allocations.
pub open spec fn grown_len_times(n: nat, k: nat) -> nat
    decreases k,
{
    if k == 0 {
        n
    } else {
        grown_len(grown_len_times(n, (k - 1) as nat))
    }
}

/// The copy of `s[start, end)`, or `None` where those bounds do not lie
/// within `s`.
pub open spec fn subsection(s: Seq<Cell>, start: int, end: int) -> Option<Seq<Cell>> {
    if start < 0 || start > end || end > s.len() {
        None
    } else {
        Some(s.subrange(start, end))
    }
}

/// The memory of one organism: a tape of cells.
pub struct Memory {
    tape: Vec<Cell>,
}

impl View for Memory {
    type V = Seq<Cell>;

    closed spec fn view(&self) -> Seq<Cell> {
        self.tape@
    }
}

/// The value of cell `idx` of `s`, blank past the end.
pub open spec fn cell_at(s: Seq<Cell>, idx: int) -> Cell {
    if 0 <= idx < s.len() {
        s[idx]
    } else {
        None
    }
}

impl Memory {
    /// A tape within `MAX_TAPE_SIZE`, as every tape built here is.
    pub open spec fn wf(&self) -> bool {
        self@.len() <= MAX_TAPE_SIZE
    }

    /// An empty tape.
    pub fn new() -> (m: Memory)
        ensures
            m@ == Seq::<Cell>::empty(),
            m.wf(),
    {
        Memory { tape: Vec::new() }
    }

    /// A new tape holding a copy of `source[start, end)`, or `None` where
    /// the bounds do not lie within `source`. The copy shares nothing with
    /// `source`. `shift` is accepted for callers that pass it and changes
    /// nothing.
    pub fn with_subsection(source: &Memory, start: i32, end: i32, shift: bool) -> (r: Option<
        Memory,
    >)
        ensures
            r.is_none() <==> subsection(source@, start as int, end as int).is_none(),
            r.is_some() ==> subsection(source@, start as int, end as int) == Some(r.unwrap()@),
            source.wf() && r.is_some() ==> r.unwrap().wf(),
    {
        if start < 0 || start > end || (end as usize) > source.tape.len() {
            return None;
        }
        let mut ntape: Vec<Cell> = Vec::new();
        let mut idx: usize = start as usize;
        let stop: usize = end as usize;
        while idx < stop
            invariant
                0 <= start <= end,
                start as usize <= idx <= stop,
                stop == end as usize,
                stop <= source@.len(),
                ntape@ == source@.subrange(start as int, idx as int),
            decreases stop - idx,
        {
            ntape.push(source.tape[idx]);
            idx = idx + 1;
        }
        Some(Memory { tape: ntape })
    }

    /// A tape holding `cells`, or `None` where they are more than
    /// `MAX_TAPE_SIZE`.
    pub fn with_cells(cells: Vec<Cell>) -> (r: Option<Memory>)
        ensures
            r is None <==> cells@.len() > MAX_TAPE_SIZE,
            r is Some ==> r->0@ == cells@,
            r is Some ==> r->0.wf(),
    {
        if cells.len() > MAX_TAPE_SIZE {
            None
        } else {
            Some(Memory { tape: cells })
        }
    }

    /// A tape holding exactly `cells`.
    pub(crate) fn from_cells(cells: Vec<Cell>) -> (m: Memory)
        ensures
            m@ == cells@,
    {
        Memory { tape: cells }
    }

    /// Sets cell `idx`, which lies on the tape, to `c`.
    pub(crate) fn set_cell(&mut self, c: Cell, idx: usize)
        requires
            idx < old(self)@.len(),
        ensures
            final(self)@ == old(self)@.update(idx as int, c),
    {
        self.tape.set(idx, c);
    }

    /// The cell at `idx`, blank past the end of the tape.
    pub fn get(&self, idx: usize) -> (c: Cell)
        ensures
            c == cell_at(self@, idx as int),
    {
        if idx < self.tape.len() {
            self.tape[idx]
        } else {
            None
        }
    }

    /// Writes `instr` at `idx`; past the end of the tape this does nothing.
    pub fn write(&mut self, instr: InstructionSet, idx: usize)
        ensures
            idx < old(self)@.len() ==> final(self)@ == old(self)@.update(idx as int, Some(instr)),
            idx >= old(self)@.len() ==> final(self)@ == old(self)@,
            old(self).wf() ==> final(self).wf(),
    {
        if idx < self.tape.len() {
            self.tape.set(idx, Some(instr));
        }
    }

    /// Writes `instr` at `idx`, or with `mutate` set, a point mutation of
    /// it; past the end of the tape this does nothing.
    pub fn put(&mut self, instr: InstructionSet, idx: usize, mutate: bool)
        ensures
            final(self)@.len() == old(self)@.len(),
            idx >= old(self)@.len() ==> final(self)@ == old(self)@,
            idx < old(self)@.len() ==> exists|w: InstructionSet|
                final(self)@ == old(self)@.update(idx as int, Some(w)) && (!mutate ==> w
                    == instr),
            old(self).wf() ==> final(self).wf(),
    {
        if idx < self.tape.len() {
            let w = if mutate {
                point_mutation(instr)
            } else {
                instr
            };
            self.write(w, idx);
            assert(self@ == old(self)@.update(idx as int, Some(w)) && (!mutate ==> w == instr));
        }
    }

    /// The length of the tape.
    pub fn memsize(&self) -> (n: usize)
        ensures
            n == self@.len(),
    {
        self.tape.len()
    }

    /// Grows the tape by blank cells to twice its length, but not past
    /// `MAX_TAPE_SIZE`; a tape at or past that size stays as it is.
    pub fn allocate(&mut self)
        ensures
            final(self)@.len() == grown_len(old(self)@.len()),
            final(self)@.subrange(0, old(self)@.len() as int) == old(self)@,
            forall|i: int|
                old(self)@.len() <= i < final(self)@.len() ==> #[trigger] final(self)@[i]
                    == None::<InstructionSet>,
            old(self).wf() ==> final(self).wf(),
    {
        let len = self.tape.len();
        let nsize: usize = if len >= MAX_TAPE_SIZE {
            len
        } else if len <= MAX_TAPE_SIZE / OFFSPRING_MAX_GROWTH {
            OFFSPRING_MAX_GROWTH * len
        } else {
            MAX_TAPE_SIZE
        };
        while self.tape.len() < nsize
            invariant
                nsize == grown_len(old(self)@.len()),
                old(self)@.len() <= self@.len() <= nsize,
                self@.subrange(0, old(self)@.len() as int) == old(self)@,
                forall|i: int|
                    old(self)@.len() <= i < self@.len() ==> #[trigger] self@[i] == None::<
                        InstructionSet,
                    >,
            decreases nsize - self@.len(),
        {
            self.tape.push(None);
        }
    }
}

/// The fixed listing holds every instruction, so a draw over its numbers
/// ranges over the whole instruction set.
pub proof fn lemma_listing_complete(i: InstructionSet)
    ensures
        exists|k: usize| k < INSTRUCTION_COUNT && #[trigger] instruction_at(k) == i,
{
    match i {
        InstructionSet::NOP(r) => match r {
            Register::AX => assert(instruction_at(0) == i),
            Register::BX => assert(instruction_at(1) == i),
            Register::CX => assert(instruction_at(2) == i),
        },
        InstructionSet::IFNEQU => assert(instruction_at(3) == i),
        InstructionSet::IFLESS => assert(instruction_at(4) == i),
        InstructionSet::POP => assert(instruction_at(5) == i),
        InstructionSet::PUSH => assert(instruction_at(6) == i),
        InstructionSet::SWAP => assert(instruction_at(7) == i),
        InstructionSet::SWAPSTK => assert(instruction_at(8) == i),
        InstructionSet::INC => assert(instruction_at(9) == i),
        InstructionSet::DEC => assert(instruction_at(10) == i),
        InstructionSet::ADD => assert(instruction_at(11) == i),
        InstructionSet::SUB => assert(instruction_at(12) == i),
        InstructionSet::RSHIFT => assert(instruction_at(13) == i),
        InstructionSet::LSHIFT => assert(instruction_at(14) == i),
        InstructionSet::NAND => assert(instruction_at(15) == i),
        InstructionSet::SETFLOW => assert(instruction_at(16) == i),
        InstructionSet::MOVHEAD => assert(instruction_at(17) == i),
        InstructionSet::JMPHEAD => assert(instruction_at(18) == i),
        InstructionSet::GETHEAD => assert(instruction_at(19) == i),
        InstructionSet::IFLABEL => assert(instruction_at(20) == i),
        InstructionSet::IO => assert(instruction_at(21) == i),
        InstructionSet::HALLOC => assert(instruction_at(22) == i),
        InstructionSet::HDIVIDE => assert(instruction_at(23) == i),
        InstructionSet::HCOPY => assert(instruction_at(24) == i),
        InstructionSet::HSEARCH => assert(instruction_at(25) == i),
        InstructionSet::LEARN => assert(instruction_at(26) == i),
    }
}

/// The instruction written in place of `instr` where a mutation `fires`
/// and draws the number `k`.
pub open spec fn mutation_outcome_spec(instr: InstructionSet, fires: bool, k: usize) -> InstructionSet {
    if fires {
        instruction_at(k)
    } else {
        instr
    }
}

/// The instruction actually written when `instr` is copied: where a
/// mutation `fires`, the instruction numbered `k` in the fixed listing
/// replaces it whole.
pub fn mutation_outcome(instr: InstructionSet, fires: bool, k: usize) -> (r: InstructionSet)
    requires
        k < INSTRUCTION_COUNT,
    ensures
        r == mutation_outcome_spec(instr, fires, k),
{
    if fires {
        instruction_from_index(k)
    } else {
        instr
    }
}

/// An instruction drawn uniformly from the whole instruction set.
pub fn random_instruction() -> (r: InstructionSet)
    ensures
        exists|k: usize| k < INSTRUCTION_COUNT && r == instruction_at(k),
{
    instruction_from_index(draw_below(INSTRUCTION_COUNT))
}

/// `instr`, or with probability `POINT_MUTATION_NUMERATOR /
/// POINT_MUTATION_DENOMINATOR` a uniformly drawn instruction in its place.
pub fn point_mutation(instr: InstructionSet) -> (r: InstructionSet)
    ensures
        r == instr || exists|k: usize| k < INSTRUCTION_COUNT && r == mutation_outcome_spec(instr, true, k),
{
    let fires = draw_ratio(POINT_MUTATION_NUMERATOR, POINT_MUTATION_DENOMINATOR);
    if fires {
        let k = draw_below(INSTRUCTION_COUNT);
        mutation_outcome(instr, true, k)
    } else {
        instr
    }
}

/// One allocation leaves a tape within `MAX_TAPE_SIZE` at
/// `min(MAX_TAPE_SIZE, 2 * n)`, and any number of allocations keeps it
/// within `MAX_TAPE_SIZE`.
pub proof fn lemma_alloc_bound(n: nat, k: nat)
    requires
        n <= MAX_TAPE_SIZE,
    ensures
        grown_len(n) == if OFFSPRING_MAX_GROWTH * n <= MAX_TAPE_SIZE {
            (OFFSPRING_MAX_GROWTH * n) as nat
        } else {
            MAX_TAPE_SIZE as nat
        },
        grown_len_times(n, k) <= MAX_TAPE_SIZE,
    decreases k,
{
    if k > 0 {
        lemma_alloc_bound(n, (k - 1) as nat);
    }
}

/// Copying a whole well-formed tape, from 0 to its length as an `i32`,
/// gives the tape back, cell for cell.
pub proof fn lemma_subsection_whole(t: Memory)
    requires
        t.wf(),
    ensures
        subsection(t@, 0, t@.len() as i32 as int) == Some(t@),
{
    assert(t@.subrange(0, t@.len() as int) =~= t@);
}

/// For `0 <= rh <= wh` within a well-formed tape, the subsections before
/// `rh`, between `rh` and `wh`, and from `wh` to the end all exist and
/// together give the tape back, with lengths that add up to its length.
pub proof fn lemma_subsection_tiling(t: Memory, rh: i32, wh: i32)
    requires
        t.wf(),
        0 <= rh <= wh <= t@.len(),
    ensures
        subsection(t@, 0, rh as int) is Some,
        subsection(t@, rh as int, wh as int) is Some,
        subsection(t@, wh as int, t@.len() as i32 as int) is Some,
        subsection(t@, 0, rh as int)->0 + subsection(t@, rh as int, wh as int)->0 + subsection(
            t@,
            wh as int,
            t@.len() as i32 as int,
        )->0 == t@,
        subsection(t@, 0, rh as int)->0.len() + subsection(t@, rh as int, wh as int)->0.len()
            + subsection(t@, wh as int, t@.len() as i32 as int)->0.len() == t@.len(),
{
    assert(t@.subrange(0, rh as int) + t@.subrange(rh as int, wh as int) + t@.subrange(
        wh as int,
        t@.len() as int,
    ) =~= t@);
}

} // verus!
