use vstd::prelude::*;

use crate::bpu::chance::{draw_below, draw_ratio};
use crate::bpu::constants::{
    FRAMESHIFT_DENOMINATOR, FRAMESHIFT_NUMERATOR, MAX_TAPE_SIZE, POINT_MUTATION_DENOMINATOR,
    POINT_MUTATION_NUMERATOR,
};
use crate::bpu::hardware::{
    complement, grown_len, head_of, random_instruction, Cell, Head, InstructionSet, Memory,
    Register,
};
use crate::bpu::replication::{
    complement_template, contains_run, divide, divided_offspring, divided_parent, first_match,
    lemma_compact_len, read_complement_template, read_template_len, region_contains, ring_region,
    is_nop, search, template_len, Frameshift,
};

verus! {

/// `v` taken modulo `n`, with 0 for an empty tape.
pub open spec fn wrap(v: int, n: nat) -> nat {
    if n == 0 {
        0
    } else {
        (v % (n as int)) as nat
    }
}

/// A head position that is valid on a tape of length `n`.
pub open spec fn head_ok(h: nat, n: nat) -> bool {
    if n == 0 {
        h == 0
    } else {
        h < n
    }
}

/// The instructions that only read and write register values.
pub open spec fn is_register_op(i: InstructionSet) -> bool {
    i == InstructionSet::IFNEQU
        || i == InstructionSet::IFLESS
        || i == InstructionSet::SWAP
        || i == InstructionSet::INC
        || i == InstructionSet::DEC
        || i == InstructionSet::ADD
        || i == InstructionSet::SUB
        || i == InstructionSet::RSHIFT
        || i == InstructionSet::LSHIFT
        || i == InstructionSet::NAND
        || i == InstructionSet::IO
}

/// The instructions that work on the stacks.
pub open spec fn is_stack_op(i: InstructionSet) -> bool {
    i == InstructionSet::POP
        || i == InstructionSet::PUSH
        || i == InstructionSet::SWAPSTK
}

/// The whole state of a processor, as values.
pub struct BpuState {
    pub tape: Seq<Cell>,
    pub ax: i32,
    pub bx: i32,
    pub cx: i32,
    /// The active register.
    pub curr: Register,
    pub ip: nat,
    pub rh: nat,
    pub wh: nat,
    pub fh: nat,
    pub stack_a: Seq<i32>,
    pub stack_b: Seq<i32>,
    /// Whether the second stack is the active one.
    pub second_stack: bool,
    /// The ring region written by the latest run of copies.
    pub copy_start: nat,
    pub copy_len: nat,
    /// Whether the instruction run last was a copy.
    pub copying: bool,
    /// The value that the next IO instruction loads.
    pub input: i32,
    /// The value that the latest IO instruction emitted.
    pub output: Option<i32>,
}

/// The random outcomes that one step may use: the instruction that replaces
/// a copied one by point mutation, and the frameshift of a division.
#[derive(Clone, Copy, Debug)]
pub struct Draws {
    pub mutation: Option<InstructionSet>,
    pub frameshift: Option<Frameshift>,
}

impl BpuState {
    pub open spec fn wf(self) -> bool {
        &&& self.tape.len() <= MAX_TAPE_SIZE
        &&& head_ok(self.ip, self.tape.len())
        &&& head_ok(self.rh, self.tape.len())
        &&& head_ok(self.wh, self.tape.len())
        &&& head_ok(self.fh, self.tape.len())
        &&& head_ok(self.copy_start, self.tape.len())
        &&& self.copy_len <= self.tape.len()
    }

    pub open spec fn reg(self, r: Register) -> i32 {
        match r {
            Register::AX => self.ax,
            Register::BX => self.bx,
            Register::CX => self.cx,
        }
    }

    pub open spec fn set_reg(self, r: Register, v: i32) -> BpuState {
        match r {
            Register::AX => BpuState { ax: v, ..self },
            Register::BX => BpuState { bx: v, ..self },
            Register::CX => BpuState { cx: v, ..self },
        }
    }

    pub open spec fn head(self, h: Head) -> nat {
        match h {
            Head::IP => self.ip,
            Head::RH => self.rh,
            Head::WH => self.wh,
            Head::FH => self.fh,
        }
    }

    pub open spec fn set_head(self, h: Head, v: nat) -> BpuState {
        match h {
            Head::IP => BpuState { ip: v, ..self },
            Head::RH => BpuState { rh: v, ..self },
            Head::WH => BpuState { wh: v, ..self },
            Head::FH => BpuState { fh: v, ..self },
        }
    }

    pub open spec fn active_stack(self) -> Seq<i32> {
        if self.second_stack {
            self.stack_b
        } else {
            self.stack_a
        }
    }

    pub open spec fn set_active_stack(self, st: Seq<i32>) -> BpuState {
        if self.second_stack {
            BpuState { stack_b: st, ..self }
        } else {
            BpuState { stack_a: st, ..self }
        }
    }

    /// Moves the instruction pointer `k` cells on, round the ring.
    pub open spec fn advance(self, k: nat) -> BpuState {
        BpuState { ip: wrap((self.ip + k) as int, self.tape.len()), ..self }
    }

    /// Ends a run of copies.
    pub open spec fn end_run(self) -> BpuState {
        BpuState { copying: false, ..self }
    }
}

/// A fresh processor on `tape`: registers, heads and stacks zeroed or
/// empty, AX active, no input and no output.
pub open spec fn initial(tape: Seq<Cell>) -> BpuState {
    BpuState {
        tape,
        ax: 0,
        bx: 0,
        cx: 0,
        curr: Register::AX,
        ip: 0,
        rh: 0,
        wh: 0,
        fh: 0,
        stack_a: Seq::empty(),
        stack_b: Seq::empty(),
        second_stack: false,
        copy_start: 0,
        copy_len: 0,
        copying: false,
        input: 0,
        output: None,
    }
}

/// The processor of `s` started over on `tape` after a division; its input
/// and output are kept.
pub open spec fn restart(s: BpuState, tape: Seq<Cell>) -> BpuState {
    BpuState { input: s.input, output: s.output, ..initial(tape) }
}

/// The effect of an instruction that neither copies, divides, searches nor
/// tests a label, the instruction pointer moved on included.
pub open spec fn simple_effect(s: BpuState, i: InstructionSet) -> BpuState {
    let n = s.tape.len();
    let cur = s.reg(s.curr);
    let comp = s.reg(complement(s.curr));
    match i {
        InstructionSet::IFNEQU => if cur == comp {
            s.advance(2)
        } else {
            s.advance(1)
        },
        InstructionSet::IFLESS => if cur < comp {
            s.advance(2)
        } else {
            s.advance(1)
        },
        InstructionSet::POP => if s.active_stack().len() == 0 {
            s.advance(1)
        } else {
            s.set_reg(s.curr, s.active_stack().last()).set_active_stack(
                s.active_stack().drop_last(),
            ).advance(1)
        },
        InstructionSet::PUSH => s.set_active_stack(s.active_stack().push(cur)).advance(1),
        InstructionSet::SWAP => s.set_reg(s.curr, comp).set_reg(complement(s.curr), cur).advance(1),
        InstructionSet::SWAPSTK => BpuState { second_stack: !s.second_stack, ..s }.advance(1),
        InstructionSet::INC => s.set_reg(s.curr, cur.wrapping_add(1)).advance(1),
        InstructionSet::DEC => s.set_reg(s.curr, cur.wrapping_sub(1)).advance(1),
        InstructionSet::ADD => s.set_reg(s.curr, s.bx.wrapping_add(s.cx)).advance(1),
        InstructionSet::SUB => s.set_reg(s.curr, s.bx.wrapping_sub(s.cx)).advance(1),
        InstructionSet::RSHIFT => s.set_reg(s.curr, cur >> 1u32).advance(1),
        InstructionSet::LSHIFT => s.set_reg(s.curr, cur.wrapping_shl(1)).advance(1),
        InstructionSet::NAND => s.set_reg(s.curr, !(s.bx & s.cx)).advance(1),
        InstructionSet::SETFLOW => BpuState { fh: wrap(comp as int, n), ..s }.advance(1),
        InstructionSet::MOVHEAD => s.set_head(head_of(s.curr), s.fh).advance(1),
        InstructionSet::JMPHEAD => s.set_head(head_of(s.curr), wrap(s.cx as int, n)).advance(1),
        InstructionSet::GETHEAD => BpuState { cx: s.head(head_of(s.curr)) as i32, ..s }.advance(1),
        InstructionSet::IO => BpuState { output: Some(cur), ..s }.set_reg(s.curr, s.input).advance(
            1,
        ),
        InstructionSet::HALLOC => BpuState {
            tape: s.tape + Seq::new((grown_len(n) - n) as nat, |k: int| None::<InstructionSet>),
            ..s
        }.advance(1),
        _ => s.advance(1),
    }
}

/// The effect of a copy: the cell at RH, or the mutation `m` in its place,
/// is written at WH, both heads move on by one, and the copied region grows
/// by that cell or, after another instruction, starts over at it.
pub open spec fn copy_effect(s: BpuState, m: Option<InstructionSet>) -> BpuState {
    let n = s.tape.len();
    if n == 0 {
        BpuState { copying: true, ..s }.advance(1)
    } else {
        let w = match m {
            Some(x) => Some(x),
            None => s.tape[s.rh as int],
        };
        let cs = if s.copying {
            s.copy_start
        } else {
            s.wh
        };
        let cl = if !s.copying {
            1
        } else if s.copy_len < n {
            s.copy_len + 1
        } else {
            s.copy_len
        };
        BpuState {
            tape: s.tape.update(s.wh as int, w),
            rh: wrap(s.rh + 1int, n),
            wh: wrap(s.wh + 1int, n),
            copy_start: cs,
            copy_len: cl,
            copying: true,
            ..s
        }.advance(1)
    }
}

/// The effect of a search: for the template after IP, FH goes just past
/// the first place round the ring, from the end of the template on, where
/// its complement stands, BX to the distance from IP to FH and CX to the
/// template's length; with no template, or no match, BX and CX become 0 and
/// FH goes to IP. IP then moves past the template.
pub open spec fn search_effect(s: BpuState) -> BpuState {
    let n = s.tape.len();
    let start = s.ip + 1;
    let m = template_len(s.tape, start);
    let pat = complement_template(s.tape, start, m);
    let from = start + m;
    let found = if m == 0 {
        None
    } else {
        first_match(s.tape, pat, from, 0)
    };
    let t = match found {
        None => BpuState { bx: 0, cx: 0, fh: s.ip, ..s },
        Some(i) => {
            let f = wrap((from + i + m) as int, n);
            BpuState { fh: f, bx: wrap(f - s.ip, n) as i32, cx: m as i32, ..s }
        },
    };
    t.advance(1 + m)
}

/// The effect of a label test: the instruction after the template that
/// follows IP runs only where the template's complement stands in the
/// region of the latest copies; else it is skipped.
pub open spec fn label_effect(s: BpuState) -> BpuState {
    let start = s.ip + 1;
    let m = template_len(s.tape, start);
    let pat = complement_template(s.tape, start, m);
    if contains_run(ring_region(s.tape, s.copy_start, s.copy_len), pat) {
        s.advance(1 + m)
    } else {
        s.advance(2 + m)
    }
}

/// One step of the processor in state `s` with the random outcomes `d`: the
/// next state, and the offspring's tape where a division produced one.
pub open spec fn next(s: BpuState, d: Draws) -> (BpuState, Option<Seq<Cell>>) {
    let c = if s.ip < s.tape.len() {
        s.tape[s.ip as int]
    } else {
        None
    };
    match c {
        None => (s.end_run().advance(1), None),
        Some(i) => match i {
            InstructionSet::HCOPY => (copy_effect(s, d.mutation), None),
            InstructionSet::HDIVIDE => (
                restart(s, divided_parent(s.tape, s.rh)),
                divided_offspring(s.tape, s.rh, s.wh, d.frameshift),
            ),
            InstructionSet::HSEARCH => (search_effect(s.end_run()), None),
            InstructionSet::IFLABEL => (label_effect(s.end_run()), None),
            _ => (simple_effect(s.end_run(), i), None),
        },
    }
}

fn wrap_index(v: usize, n: usize) -> (r: usize)
    ensures
        r == wrap(v as int, n as nat),
{
    if n == 0 {
        0
    } else {
        v % n
    }
}

fn wrap_i32(v: i32, n: usize) -> (r: usize)
    requires
        n <= MAX_TAPE_SIZE,
    ensures
        r == wrap(v as int, n as nat),
{
    if n == 0 {
        return 0;
    }
    if v >= 0 {
        return (v as usize) % n;
    }
    let x: i64 = 0i64 - (v as i64);
    let a: usize = (x as usize) % n;
    proof {
        let ni = n as int;
        let q = (x as int) / ni;
        vstd::arithmetic::div_mod::lemma_fundamental_div_mod(x as int, ni);
        assert(x as int == ni * q + a as int);
        if a == 0 {
            assert(v as int == (-q) * ni + 0) by (nonlinear_arith)
                requires
                    x as int == ni * q + a as int,
                    x as int == -(v as int),
                    a == 0,
            ;
            vstd::arithmetic::div_mod::lemma_fundamental_div_mod_converse(v as int, ni, -q, 0);
        } else {
            assert(v as int == (-q - 1) * ni + (ni - a)) by (nonlinear_arith)
                requires
                    x as int == ni * q + a as int,
                    x as int == -(v as int),
            ;
            vstd::arithmetic::div_mod::lemma_fundamental_div_mod_converse(
                v as int,
                ni,
                -q - 1,
                ni - a,
            );
        }
    }
    if a == 0 {
        0
    } else {
        n - a
    }
}

/// A processor: one organism's tape with its registers, heads and stacks.
pub struct Bpu {
    mem: Memory,
    ax: i32,
    bx: i32,
    cx: i32,
    curr: Register,
    ip: usize,
    rh: usize,
    wh: usize,
    fh: usize,
    stack_a: Vec<i32>,
    stack_b: Vec<i32>,
    second_stack: bool,
    copy_start: usize,
    copy_len: usize,
    copying: bool,
    input: i32,
    output: Option<i32>,
}

impl View for Bpu {
    type V = BpuState;

    closed spec fn view(&self) -> BpuState {
        BpuState {
            tape: self.mem@,
            ax: self.ax,
            bx: self.bx,
            cx: self.cx,
            curr: self.curr,
            ip: self.ip as nat,
            rh: self.rh as nat,
            wh: self.wh as nat,
            fh: self.fh as nat,
            stack_a: self.stack_a@,
            stack_b: self.stack_b@,
            second_stack: self.second_stack,
            copy_start: self.copy_start as nat,
            copy_len: self.copy_len as nat,
            copying: self.copying,
            input: self.input,
            output: self.output,
        }
    }
}

impl Bpu {
    /// A fresh processor on `mem`.
    pub fn new(mem: Memory) -> (b: Bpu)
        requires
            mem.wf(),
        ensures
            b@ == initial(mem@),
            b@.wf(),
    {
        Bpu {
            mem,
            ax: 0,
            bx: 0,
            cx: 0,
            curr: Register::AX,
            ip: 0,
            rh: 0,
            wh: 0,
            fh: 0,
            stack_a: Vec::new(),
            stack_b: Vec::new(),
            second_stack: false,
            copy_start: 0,
            copy_len: 0,
            copying: false,
            input: 0,
            output: None,
        }
    }

    /// The value held in register `r`.
    pub fn register(&self, r: Register) -> (v: i32)
        ensures
            v == self@.reg(r),
    {
        match r {
            Register::AX => self.ax,
            Register::BX => self.bx,
            Register::CX => self.cx,
        }
    }

    /// The position of head `h`.
    pub fn head(&self, h: Head) -> (p: usize)
        ensures
            p == self@.head(h),
    {
        match h {
            Head::IP => self.ip,
            Head::RH => self.rh,
            Head::WH => self.wh,
            Head::FH => self.fh,
        }
    }

    /// The active register.
    pub fn current_register(&self) -> (r: Register)
        ensures
            r == self@.curr,
    {
        self.curr
    }

    /// Makes `r` the active register; no register's value changes.
    pub fn select_register(&mut self, r: Register)
        ensures
            final(self)@ == (BpuState { curr: r, ..old(self)@ }),
            final(self)@.wf() == old(self)@.wf(),
    {
        self.curr = r;
    }

    /// The processor's tape.
    pub fn memory(&self) -> (m: &Memory)
        ensures
            m@ == self@.tape,
            self@.wf() ==> m.wf(),
    {
        &self.mem
    }

    /// The length of the processor's tape.
    pub fn memsize(&self) -> (n: usize)
        ensures
            n == self@.tape.len(),
    {
        self.mem.memsize()
    }

    /// Sets the value that the next IO instruction loads.
    pub fn feed_input(&mut self, v: i32)
        ensures
            final(self)@ == (BpuState { input: v, ..old(self)@ }),
    {
        self.input = v;
    }

    /// The value that the latest IO instruction emitted, if any ran.
    pub fn last_output(&self) -> (o: Option<i32>)
        ensures
            o == self@.output,
    {
        self.output
    }

    fn set_reg(&mut self, r: Register, v: i32)
        ensures
            final(self)@ == old(self)@.set_reg(r, v),
    {
        match r {
            Register::AX => self.ax = v,
            Register::BX => self.bx = v,
            Register::CX => self.cx = v,
        }
    }

    fn set_head(&mut self, h: Head, v: usize)
        ensures
            final(self)@ == old(self)@.set_head(h, v as nat),
    {
        match h {
            Head::IP => self.ip = v,
            Head::RH => self.rh = v,
            Head::WH => self.wh = v,
            Head::FH => self.fh = v,
        }
    }

    fn advance(&mut self, k: usize)
        requires
            old(self)@.wf(),
            k <= MAX_TAPE_SIZE + 2,
        ensures
            final(self)@ == old(self)@.advance(k as nat),
    {
        let n = self.mem.memsize();
        self.ip = wrap_index(self.ip + k, n);
    }

    fn simple_regs(&mut self, i: InstructionSet)
        requires
            old(self)@.wf(),
            is_register_op(i),
        ensures
            final(self)@ == simple_effect(old(self)@, i),
    {
        let n = self.mem.memsize();
        let c = self.curr;
        let cur = self.register(c);
        let comp = self.register(c.get_complement());
        match i {
            InstructionSet::IFNEQU => {
                if cur == comp {
                    self.advance(2);
                } else {
                    self.advance(1);
                }
            },
            InstructionSet::IFLESS => {
                if cur < comp {
                    self.advance(2);
                } else {
                    self.advance(1);
                }
            },
            InstructionSet::SWAP => {
                self.set_reg(c, comp);
                self.set_reg(c.get_complement(), cur);
                self.advance(1);
            },
            InstructionSet::INC => {
                self.set_reg(c, cur.wrapping_add(1));
                self.advance(1);
            },
            InstructionSet::DEC => {
                self.set_reg(c, cur.wrapping_sub(1));
                self.advance(1);
            },
            InstructionSet::ADD => {
                let v = self.bx.wrapping_add(self.cx);
                self.set_reg(c, v);
                self.advance(1);
            },
            InstructionSet::SUB => {
                let v = self.bx.wrapping_sub(self.cx);
                self.set_reg(c, v);
                self.advance(1);
            },
            InstructionSet::RSHIFT => {
                self.set_reg(c, cur >> 1u32);
                self.advance(1);
            },
            InstructionSet::LSHIFT => {
                self.set_reg(c, cur.wrapping_shl(1));
                self.advance(1);
            },
            InstructionSet::NAND => {
                let v = !(self.bx & self.cx);
                self.set_reg(c, v);
                self.advance(1);
            },
            InstructionSet::IO => {
                self.output = Some(cur);
                let v = self.input;
                self.set_reg(c, v);
                self.advance(1);
            },
            _ => {
                self.advance(1);
            },
        }
    }

    fn simple_stacks(&mut self, i: InstructionSet)
        requires
            old(self)@.wf(),
            is_stack_op(i),
        ensures
            final(self)@ == simple_effect(old(self)@, i),
    {
        let n = self.mem.memsize();
        let c = self.curr;
        let cur = self.register(c);
        let comp = self.register(c.get_complement());
        match i {
            InstructionSet::POP => {
                let top = if self.second_stack {
                    self.stack_b.pop()
                } else {
                    self.stack_a.pop()
                };
                match top {
                    Some(v) => self.set_reg(c, v),
                    None => {},
                }
                self.advance(1);
            },
            InstructionSet::PUSH => {
                if self.second_stack {
                    self.stack_b.push(cur);
                } else {
                    self.stack_a.push(cur);
                }
                self.advance(1);
            },
            InstructionSet::SWAPSTK => {
                self.second_stack = !self.second_stack;
                self.advance(1);
            },
            _ => {
                self.advance(1);
            },
        }
    }

    fn simple_heads(&mut self, i: InstructionSet)
        requires
            old(self)@.wf(),
            !is_register_op(i),
            !is_stack_op(i),
        ensures
            final(self)@ == simple_effect(old(self)@, i),
    {
        let n = self.mem.memsize();
        let c = self.curr;
        let cur = self.register(c);
        let comp = self.register(c.get_complement());
        match i {
            InstructionSet::SETFLOW => {
                self.fh = wrap_i32(comp, n);
                self.advance(1);
            },
            InstructionSet::MOVHEAD => {
                let f = self.fh;
                self.set_head(c.resolve_head(), f);
                self.advance(1);
            },
            InstructionSet::JMPHEAD => {
                let p = wrap_i32(self.cx, n);
                self.set_head(c.resolve_head(), p);
                self.advance(1);
            },
            InstructionSet::GETHEAD => {
                let p = self.head(c.resolve_head());
                self.cx = p as i32;
                self.advance(1);
            },
            InstructionSet::HALLOC => {
                let ghost before = self@;
                self.mem.allocate();
                assert(self.mem@ =~= before.tape + Seq::new(
                    (grown_len(n as nat) - n) as nat,
                    |k: int| None::<InstructionSet>,
                ));
                self.advance(1);
            },
            _ => {
                self.advance(1);
            },
        }
    }

    fn simple(&mut self, i: InstructionSet)
        requires
            old(self)@.wf(),
        ensures
            final(self)@ == simple_effect(old(self)@, i),
    {
        match i {
            InstructionSet::IFNEQU => self.simple_regs(i),
            InstructionSet::IFLESS => self.simple_regs(i),
            InstructionSet::SWAP => self.simple_regs(i),
            InstructionSet::INC => self.simple_regs(i),
            InstructionSet::DEC => self.simple_regs(i),
            InstructionSet::ADD => self.simple_regs(i),
            InstructionSet::SUB => self.simple_regs(i),
            InstructionSet::RSHIFT => self.simple_regs(i),
            InstructionSet::LSHIFT => self.simple_regs(i),
            InstructionSet::NAND => self.simple_regs(i),
            InstructionSet::IO => self.simple_regs(i),
            InstructionSet::POP => self.simple_stacks(i),
            InstructionSet::PUSH => self.simple_stacks(i),
            InstructionSet::SWAPSTK => self.simple_stacks(i),
            _ => self.simple_heads(i),
        }
    }

    fn copy(&mut self, m: Option<InstructionSet>)
        requires
            old(self)@.wf(),
        ensures
            final(self)@ == copy_effect(old(self)@, m),
    {
        let n = self.mem.memsize();
        if n == 0 {
            self.copying = true;
            self.advance(1);
            return ;
        }
        let w = match m {
            Some(x) => Some(x),
            None => self.mem.get(self.rh),
        };
        self.mem.set_cell(w, self.wh);
        if !self.copying {
            self.copy_start = self.wh;
            self.copy_len = 1;
        } else if self.copy_len < n {
            self.copy_len = self.copy_len + 1;
        }
        self.rh = wrap_index(self.rh + 1, n);
        self.wh = wrap_index(self.wh + 1, n);
        self.copying = true;
        self.advance(1);
    }

    fn search_template(&mut self)
        requires
            old(self)@.wf(),
            old(self)@.ip < old(self)@.tape.len(),
        ensures
            final(self)@ == search_effect(old(self)@),
    {
        let n = self.mem.memsize();
        let start = self.ip + 1;
        let m = read_template_len(&self.mem, start);
        if m == 0 {
            self.bx = 0;
            self.cx = 0;
            self.fh = self.ip;
        } else {
            let pat = read_complement_template(&self.mem, start, m);
            let from = start + m;
            match search(&self.mem, &pat, from) {
                None => {
                    self.bx = 0;
                    self.cx = 0;
                    self.fh = self.ip;
                },
                Some(i) => {
                    let f = wrap_index(from + i + m, n);
                    let d = if f >= self.ip {
                        f - self.ip
                    } else {
                        f + n - self.ip
                    };
                    proof {
                        if f < self.ip {
                            vstd::arithmetic::div_mod::lemma_fundamental_div_mod_converse(
                                f - self.ip,
                                n as int,
                                -1,
                                d as int,
                            );
                        } else {
                            vstd::arithmetic::div_mod::lemma_fundamental_div_mod_converse(
                                f - self.ip,
                                n as int,
                                0,
                                d as int,
                            );
                        }
                    }
                    assert(d == wrap(f - self.ip, n as nat));
                    self.fh = f;
                    self.bx = d as i32;
                    self.cx = m as i32;
                },
            }
        }
        self.advance(1 + m);
    }

    fn test_label(&mut self)
        requires
            old(self)@.wf(),
            old(self)@.ip < old(self)@.tape.len(),
        ensures
            final(self)@ == label_effect(old(self)@),
    {
        let start = self.ip + 1;
        let m = read_template_len(&self.mem, start);
        let pat = read_complement_template(&self.mem, start, m);
        if region_contains(&self.mem, self.copy_start, self.copy_len, &pat) {
            self.advance(1 + m);
        } else {
            self.advance(2 + m);
        }
    }

    fn restart_on(&mut self, mem: Memory)
        ensures
            final(self)@ == restart(old(self)@, mem@),
    {
        self.mem = mem;
        self.ax = 0;
        self.bx = 0;
        self.cx = 0;
        self.curr = Register::AX;
        self.ip = 0;
        self.rh = 0;
        self.wh = 0;
        self.fh = 0;
        self.stack_a = Vec::new();
        self.stack_b = Vec::new();
        self.second_stack = false;
        self.copy_start = 0;
        self.copy_len = 0;
        self.copying = false;
    }

    /// Runs the instruction at IP with the random outcomes `d`; returns the
    /// offspring's tape where it divided.
    pub fn step_with(&mut self, d: Draws) -> (r: Option<Memory>)
        requires
            old(self)@.wf(),
        ensures
            final(self)@ == next(old(self)@, d).0,
            final(self)@.wf(),
            r is None <==> next(old(self)@, d).1 is None,
            r is Some ==> next(old(self)@, d).1 == Some(r->0@),
            r is Some ==> r->0.wf(),
    {
        proof {
            lemma_next_wf(self@, d);
        }
        match self.mem.get(self.ip) {
            None => {
                self.copying = false;
                self.advance(1);
                None
            },
            Some(i) => match i {
                InstructionSet::HCOPY => {
                    self.copy(d.mutation);
                    None
                },
                InstructionSet::HDIVIDE => {
                    let (parent, offspring) = divide(&self.mem, self.rh, self.wh, d.frameshift);
                    self.restart_on(parent);
                    offspring
                },
                InstructionSet::HSEARCH => {
                    self.copying = false;
                    self.search_template();
                    None
                },
                InstructionSet::IFLABEL => {
                    self.copying = false;
                    self.test_label();
                    None
                },
                _ => {
                    self.copying = false;
                    self.simple(i);
                    None
                },
            },
        }
    }

    /// The random outcomes for the instruction at IP: a point mutation for
    /// a copy, a frameshift for a division, each drawn at its rate.
    fn draw(&self) -> Draws
        requires
            self@.wf(),
    {
        let mut d = Draws { mutation: None, frameshift: None };
        match self.mem.get(self.ip) {
            Some(InstructionSet::HCOPY) => {
                if draw_ratio(POINT_MUTATION_NUMERATOR, POINT_MUTATION_DENOMINATOR) {
                    d.mutation = Some(random_instruction());
                }
            },
            Some(InstructionSet::HDIVIDE) => {
                if draw_ratio(FRAMESHIFT_NUMERATOR, FRAMESHIFT_DENOMINATOR) {
                    let len = if self.rh <= self.wh {
                        self.wh - self.rh
                    } else {
                        self.rh - self.wh
                    };
                    if draw_ratio(1, 2) {
                        let position = draw_below(len + 1);
                        d.frameshift = Some(
                            Frameshift { position, insert: Some(random_instruction()) },
                        );
                    } else if len > 0 {
                        let position = draw_below(len);
                        d.frameshift = Some(Frameshift { position, insert: None });
                    }
                }
            },
            _ => {},
        }
        d
    }

    /// Runs the instruction at IP, drawing its random outcomes; returns the
    /// offspring's tape where it divided.
    pub fn step(&mut self) -> (r: Option<Memory>)
        requires
            old(self)@.wf(),
        ensures
            final(self)@.wf(),
            exists|d: Draws|
                {
                    &&& final(self)@ == next(old(self)@, d).0
                    &&& r is None <==> next(old(self)@, d).1 is None
                    &&& r is Some ==> next(old(self)@, d).1 == Some(r->0@)
                },
            r is Some ==> r->0.wf(),
    {
        let d = self.draw();
        self.step_with(d)
    }
}

proof fn lemma_wrap_bound(v: int, n: nat)
    ensures
        n > 0 ==> wrap(v, n) < n,
{
}

proof fn lemma_advance_wf(s: BpuState, k: nat)
    requires
        s.wf(),
    ensures
        s.advance(k).wf(),
{
    lemma_wrap_bound((s.ip + k) as int, s.tape.len());
}

proof fn lemma_simple_wf(s: BpuState, i: InstructionSet)
    requires
        s.wf(),
    ensures
        simple_effect(s, i).wf(),
{
    let n = s.tape.len();
    lemma_wrap_bound(s.reg(complement(s.curr)) as int, n);
    lemma_wrap_bound(s.cx as int, n);
    lemma_advance_wf(s, 1);
    lemma_advance_wf(s, 2);
    match i {
        InstructionSet::POP => {
            if s.active_stack().len() > 0 {
                lemma_advance_wf(s.set_reg(s.curr, s.active_stack().last()).set_active_stack(
                    s.active_stack().drop_last(),
                ), 1);
            }
        },
        InstructionSet::PUSH => lemma_advance_wf(s.set_active_stack(s.active_stack().push(s.reg(s.curr))), 1),
        InstructionSet::SWAP => lemma_advance_wf(s.set_reg(s.curr, s.reg(complement(s.curr))).set_reg(complement(s.curr), s.reg(s.curr)), 1),
        InstructionSet::SWAPSTK => lemma_advance_wf(BpuState { second_stack: !s.second_stack, ..s }, 1),
        InstructionSet::SETFLOW => lemma_advance_wf(BpuState { fh: wrap(s.reg(complement(s.curr)) as int, n), ..s }, 1),
        InstructionSet::MOVHEAD => lemma_advance_wf(s.set_head(head_of(s.curr), s.fh), 1),
        InstructionSet::JMPHEAD => lemma_advance_wf(s.set_head(head_of(s.curr), wrap(s.cx as int, n)), 1),
        InstructionSet::GETHEAD => lemma_advance_wf(BpuState { cx: s.head(head_of(s.curr)) as i32, ..s }, 1),
        InstructionSet::IO => lemma_advance_wf(BpuState { output: Some(s.reg(s.curr)), ..s }.set_reg(s.curr, s.input), 1),
        InstructionSet::HALLOC => {
            let t = BpuState {
                tape: s.tape + Seq::new((grown_len(n) - n) as nat, |k: int| None::<InstructionSet>),
                ..s
            };
            lemma_advance_wf(t, 1);
        },
        _ => {
            let cur = s.reg(s.curr);
            lemma_advance_wf(s.set_reg(s.curr, cur.wrapping_add(1)), 1);
            lemma_advance_wf(s.set_reg(s.curr, cur.wrapping_sub(1)), 1);
            lemma_advance_wf(s.set_reg(s.curr, s.bx.wrapping_add(s.cx)), 1);
            lemma_advance_wf(s.set_reg(s.curr, s.bx.wrapping_sub(s.cx)), 1);
            lemma_advance_wf(s.set_reg(s.curr, cur >> 1u32), 1);
            lemma_advance_wf(s.set_reg(s.curr, cur.wrapping_shl(1)), 1);
            lemma_advance_wf(s.set_reg(s.curr, !(s.bx & s.cx)), 1);
        },
    }
}

proof fn lemma_copy_wf(s: BpuState, m: Option<InstructionSet>)
    requires
        s.wf(),
    ensures
        copy_effect(s, m).wf(),
{
    let n = s.tape.len();
    lemma_wrap_bound(s.rh + 1int, n);
    lemma_wrap_bound(s.wh + 1int, n);
    lemma_advance_wf(BpuState { copying: true, ..s }, 1);
    if n > 0 {
        let w = match m {
            Some(x) => Some(x),
            None => s.tape[s.rh as int],
        };
        let cs = if s.copying { s.copy_start } else { s.wh };
        let cl = if !s.copying { 1 } else if s.copy_len < n { s.copy_len + 1 } else { s.copy_len };
        let t = BpuState {
            tape: s.tape.update(s.wh as int, w),
            rh: wrap(s.rh + 1int, n),
            wh: wrap(s.wh + 1int, n),
            copy_start: cs,
            copy_len: cl,
            copying: true,
            ..s
        };
        lemma_advance_wf(t, 1);
    }
}

proof fn lemma_search_wf(s: BpuState)
    requires
        s.wf(),
        s.ip < s.tape.len(),
    ensures
        search_effect(s).wf(),
{
    let n = s.tape.len();
    let start = s.ip + 1;
    let m = template_len(s.tape, start);
    let pat = complement_template(s.tape, start, m);
    let from = start + m;
    let found = if m == 0 { None } else { first_match(s.tape, pat, from, 0) };
    match found {
        None => lemma_advance_wf(BpuState { bx: 0, cx: 0, fh: s.ip, ..s }, 1 + m),
        Some(i) => {
            let f = wrap((from + i + m) as int, n);
            lemma_wrap_bound((from + i + m) as int, n);
            lemma_advance_wf(BpuState { fh: f, bx: wrap(f - s.ip, n) as i32, cx: m as i32, ..s }, 1 + m);
        },
    }
}

/// Every step keeps a processor well formed: its tape within
/// `MAX_TAPE_SIZE` and every head on the tape.
pub proof fn lemma_next_wf(s: BpuState, d: Draws)
    requires
        s.wf(),
    ensures
        next(s, d).0.wf(),
{
    let c = if s.ip < s.tape.len() {
        s.tape[s.ip as int]
    } else {
        None
    };
    match c {
        None => lemma_advance_wf(s.end_run(), 1),
        Some(i) => match i {
            InstructionSet::HCOPY => lemma_copy_wf(s, d.mutation),
            InstructionSet::HDIVIDE => lemma_compact_len(s.tape.subrange(0, s.rh as int)),
            InstructionSet::HSEARCH => lemma_search_wf(s.end_run()),
            InstructionSet::IFLABEL => {
                let t = s.end_run();
                let m = template_len(t.tape, t.ip + 1);
                lemma_advance_wf(t, 1 + m);
                lemma_advance_wf(t, 2 + m);
            },
            _ => lemma_simple_wf(s.end_run(), i),
        },
    }
}

/// A search whose IP is not followed by a NOP sets BX and CX to 0 and
/// leaves FH at IP, whatever the random outcomes.
pub proof fn lemma_search_without_template(s: BpuState, d: Draws)
    requires
        s.wf(),
        s.ip < s.tape.len(),
        s.tape[s.ip as int] == Some(InstructionSet::HSEARCH),
        !(s.ip + 1 < s.tape.len() && is_nop(s.tape[s.ip + 1int])),
    ensures
        next(s, d).0.bx == 0,
        next(s, d).0.cx == 0,
        next(s, d).0.fh == s.ip,
{
    assert(template_len(s.tape, s.ip + 1) == 0);
}

} // verus!
