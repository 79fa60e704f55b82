use vstd::prelude::*;

use crate::bpu::constants::{MAX_TAPE_SIZE, OFFSPRING_MAX_GROWTH};
use crate::bpu::hardware::{complement, Cell, InstructionSet, Memory};

verus! {

/// Whether a cell holds a NOP.
pub open spec fn is_nop(c: Cell) -> bool {
    match c {
        Some(InstructionSet::NOP(_)) => true,
        _ => false,
    }
}

/// A cell with the register of a NOP replaced by its complement; other
/// cells are left as they are.
pub open spec fn complement_cell(c: Cell) -> Cell {
    match c {
        Some(InstructionSet::NOP(r)) => Some(InstructionSet::NOP(complement(r))),
        _ => c,
    }
}

/// The length of the run of NOP cells that starts at `start` and stops at
/// the first other cell or at the end of the tape.
pub open spec fn template_len(tape: Seq<Cell>, start: nat) -> nat
    decreases tape.len() - start,
{
    if start < tape.len() && is_nop(tape[start as int]) {
        1 + template_len(tape, start + 1)
    } else {
        0
    }
}

/// The complement of the `m` cells of `tape` from `start` on.
pub open spec fn complement_template(tape: Seq<Cell>, start: nat, m: nat) -> Seq<Cell> {
    Seq::new(m, |k: int| complement_cell(tape[start + k]))
}

/// The cell at `pos` of a tape read as a ring.
pub open spec fn ring_at(tape: Seq<Cell>, pos: int) -> Cell {
    tape[pos % (tape.len() as int)]
}

/// Whether `pat` stands on the ring tape from `pos` on.
pub open spec fn matches_at(tape: Seq<Cell>, pat: Seq<Cell>, pos: int) -> bool {
    forall|k: int| 0 <= k < pat.len() ==> ring_at(tape, pos + k) == #[trigger] pat[k]
}

/// The first offset `i`, from `i` on and below the tape length, such that
/// `pat` stands on the ring tape at `from + i`.
pub open spec fn first_match(tape: Seq<Cell>, pat: Seq<Cell>, from: nat, i: nat) -> Option<nat>
    decreases tape.len() - i,
{
    if i < tape.len() {
        if matches_at(tape, pat, (from + i) as int) {
            Some(i)
        } else {
            first_match(tape, pat, from, i + 1)
        }
    } else {
        None
    }
}

/// `m` cells of the ring tape from `start` on.
pub open spec fn ring_region(tape: Seq<Cell>, start: nat, m: nat) -> Seq<Cell> {
    Seq::new(m, |k: int| ring_at(tape, start + k))
}

/// Whether `pat` stands somewhere in `hay` as a contiguous run.
pub open spec fn contains_run(hay: Seq<Cell>, pat: Seq<Cell>) -> bool {
    exists|j: int| 0 <= j && j + pat.len() <= hay.len() && #[trigger] hay.subrange(j, j + pat.len()) == pat
}

/// The cells of `s` without its blanks, in their order.
pub open spec fn compact(s: Seq<Cell>) -> Seq<Cell>
    decreases s.len(),
{
    if s.len() == 0 {
        s
    } else if s.last().is_some() {
        compact(s.drop_last()).push(s.last())
    } else {
        compact(s.drop_last())
    }
}

/// A frameshift mutation: one cell inserted at `position`, or, where
/// `insert` is `None`, the cell at `position` deleted.
#[derive(Clone, Copy, Debug)]
pub struct Frameshift {
    pub position: usize,
    pub insert: Option<InstructionSet>,
}

/// The longest that an offspring of a tape of length `n` may be.
pub open spec fn offspring_bound(n: nat) -> nat {
    if OFFSPRING_MAX_GROWTH * n <= MAX_TAPE_SIZE {
        (OFFSPRING_MAX_GROWTH * n) as nat
    } else {
        MAX_TAPE_SIZE as nat
    }
}

/// The region `r` of a tape of length `n` after the frameshift `f`: an
/// insertion stands only where it keeps the region within
/// `offspring_bound(n)`, and either only at a position within the region.
pub open spec fn frameshifted(r: Seq<Cell>, f: Option<Frameshift>, n: nat) -> Seq<Cell> {
    match f {
        None => r,
        Some(fs) => match fs.insert {
            Some(c) => if fs.position <= r.len() && r.len() + 1 <= offspring_bound(n) {
                r.insert(fs.position as int, Some(c))
            } else {
                r
            },
            None => if fs.position < r.len() {
                r.remove(fs.position as int)
            } else {
                r
            },
        },
    }
}

/// The parent's new tape when a tape is divided at `rh`: its cells before
/// `rh`, blanks removed.
pub open spec fn divided_parent(tape: Seq<Cell>, rh: nat) -> Seq<Cell> {
    compact(tape.subrange(0, rh as int))
}

/// The offspring's tape when a tape is divided at `rh` and `wh`: the cells
/// between the two after the frameshift `f`, blanks removed; `None` where
/// that leaves nothing.
pub open spec fn divided_offspring(tape: Seq<Cell>, rh: nat, wh: nat, f: Option<Frameshift>) -> Option<
    Seq<Cell>,
> {
    let lo = if rh <= wh { rh } else { wh };
    let hi = if rh <= wh { wh } else { rh };
    let o = compact(frameshifted(tape.subrange(lo as int, hi as int), f, tape.len()));
    if o.len() == 0 {
        None
    } else {
        Some(o)
    }
}

/// Removing blanks never makes a sequence longer.
pub proof fn lemma_compact_len(s: Seq<Cell>)
    ensures
        compact(s).len() <= s.len(),
    decreases s.len(),
{
    if s.len() > 0 {
        lemma_compact_len(s.drop_last());
    }
}

/// Dividing a tape at `rh <= wh` splits it into the parent's region, the
/// offspring's region and the discarded rest, which together give the tape
/// back and whose lengths add up to its length; the parent's new tape is
/// its region without blanks, and the offspring is no longer than
/// `OFFSPRING_MAX_GROWTH` times the tape, nor than `MAX_TAPE_SIZE`.
pub proof fn lemma_division_partition(tape: Seq<Cell>, rh: nat, wh: nat, f: Option<Frameshift>)
    requires
        rh <= wh <= tape.len(),
        tape.len() <= MAX_TAPE_SIZE,
    ensures
        tape.subrange(0, rh as int) + tape.subrange(rh as int, wh as int) + tape.subrange(
            wh as int,
            tape.len() as int,
        ) == tape,
        rh + (wh - rh) + (tape.len() - wh) == tape.len(),
        divided_parent(tape, rh) == compact(tape.subrange(0, rh as int)),
        divided_offspring(tape, rh, wh, f) is Some ==> divided_offspring(tape, rh, wh, f)->0.len()
            <= OFFSPRING_MAX_GROWTH * tape.len(),
        divided_offspring(tape, rh, wh, f) is Some ==> divided_offspring(tape, rh, wh, f)->0.len()
            <= MAX_TAPE_SIZE,
{
    assert(tape.subrange(0, rh as int) + tape.subrange(rh as int, wh as int) + tape.subrange(
        wh as int,
        tape.len() as int,
    ) =~= tape);
    let r = tape.subrange(rh as int, wh as int);
    let s = frameshifted(r, f, tape.len());
    lemma_compact_len(s);
    assert(s.len() <= offspring_bound(tape.len()) || s.len() == 0);
}

/// The length of the template that starts at `start`.
pub fn read_template_len(mem: &Memory, start: usize) -> (r: usize)
    requires
        start <= mem@.len(),
    ensures
        r == template_len(mem@, start as nat),
        start + r <= mem@.len(),
{
    let n = mem.memsize();
    let mut i: usize = start;
    while i < n && is_nop_cell(mem.get(i))
        invariant
            n == mem@.len(),
            start <= i <= n,
            template_len(mem@, start as nat) == (i - start) + template_len(mem@, i as nat),
        decreases n - i,
    {
        i = i + 1;
    }
    i - start
}

fn is_nop_cell(c: Cell) -> (r: bool)
    ensures
        r == is_nop(c),
{
    match c {
        Some(InstructionSet::NOP(_)) => true,
        _ => false,
    }
}

fn complement_cell_exec(c: Cell) -> (r: Cell)
    ensures
        r == complement_cell(c),
{
    match c {
        Some(InstructionSet::NOP(reg)) => Some(InstructionSet::NOP(reg.get_complement())),
        _ => c,
    }
}

fn cell_eq(a: Cell, b: Cell) -> (r: bool)
    ensures
        r == (a == b),
{
    match (a, b) {
        (None, None) => true,
        (Some(x), Some(y)) => x == y,
        _ => false,
    }
}

/// The complement of the `m` cells of `mem` from `start` on.
pub fn read_complement_template(mem: &Memory, start: usize, m: usize) -> (r: Vec<Cell>)
    requires
        start + m <= mem@.len(),
    ensures
        r@ == complement_template(mem@, start as nat, m as nat),
{
    let n = mem.memsize();
    let mut v: Vec<Cell> = Vec::new();
    let mut k: usize = 0;
    while k < m
        invariant
            n == mem@.len(),
            start + m <= mem@.len(),
            k <= m,
            v@ =~= complement_template(mem@, start as nat, k as nat),
        decreases m - k,
    {
        v.push(complement_cell_exec(mem.get(start + k)));
        k = k + 1;
    }
    v
}

/// Whether `pat` stands on the ring tape from `pos` on.
fn matches_at_exec(mem: &Memory, pat: &Vec<Cell>, pos: usize) -> (r: bool)
    requires
        0 < mem@.len() <= MAX_TAPE_SIZE,
        pos < 2 * mem@.len(),
        pat@.len() <= mem@.len(),
    ensures
        r == matches_at(mem@, pat@, pos as int),
{
    let n = mem.memsize();
    let mut k: usize = 0;
    while k < pat.len()
        invariant
            n == mem@.len(),
            0 < n <= MAX_TAPE_SIZE,
            pos < 2 * n,
            pat@.len() <= n,
            k <= pat@.len(),
            forall|j: int| 0 <= j < k ==> ring_at(mem@, pos + j) == #[trigger] pat@[j],
        decreases pat@.len() - k,
    {
        if !cell_eq(mem.get((pos + k) % n), pat[k]) {
            return false;
        }
        k = k + 1;
    }
    true
}

/// The first offset below the tape length at which `pat` stands on the ring
/// tape, counted from `from`.
pub fn search(mem: &Memory, pat: &Vec<Cell>, from: usize) -> (r: Option<usize>)
    requires
        0 < mem@.len() <= MAX_TAPE_SIZE,
        from <= mem@.len(),
        pat@.len() <= mem@.len(),
    ensures
        r is None <==> first_match(mem@, pat@, from as nat, 0) is None,
        r matches Some(i) ==> first_match(mem@, pat@, from as nat, 0) == Some(i as nat),
        r matches Some(i) ==> i < mem@.len(),
{
    let n = mem.memsize();
    let mut i: usize = 0;
    while i < n
        invariant
            n == mem@.len(),
            0 < n <= MAX_TAPE_SIZE,
            from <= n,
            pat@.len() <= n,
            i <= n,
            first_match(mem@, pat@, from as nat, 0) == first_match(mem@, pat@, from as nat, i as nat),
        decreases n - i,
    {
        if matches_at_exec(mem, pat, from + i) {
            return Some(i);
        }
        i = i + 1;
    }
    None
}

/// The cells of `mem` from `from` up to `to`, blanks removed.
pub fn compact_range(mem: &Memory, from: usize, to: usize) -> (r: Vec<Cell>)
    requires
        from <= to <= mem@.len(),
    ensures
        r@ == compact(mem@.subrange(from as int, to as int)),
{
    let mut v: Vec<Cell> = Vec::new();
    let mut i: usize = from;
    while i < to
        invariant
            from <= i <= to <= mem@.len(),
            v@ == compact(mem@.subrange(from as int, i as int)),
        decreases to - i,
    {
        let c = mem.get(i);
        assert(mem@.subrange(from as int, i + 1).drop_last() =~= mem@.subrange(from as int, i as int));
        if c.is_some() {
            v.push(c);
        }
        i = i + 1;
    }
    v
}

fn copy_range(mem: &Memory, from: usize, to: usize) -> (r: Vec<Cell>)
    requires
        from <= to <= mem@.len(),
    ensures
        r@ == mem@.subrange(from as int, to as int),
{
    let mut v: Vec<Cell> = Vec::new();
    let mut i: usize = from;
    while i < to
        invariant
            from <= i <= to <= mem@.len(),
            v@ =~= mem@.subrange(from as int, i as int),
        decreases to - i,
    {
        v.push(mem.get(i));
        i = i + 1;
    }
    v
}

fn compact_vec(s: &Vec<Cell>) -> (r: Vec<Cell>)
    ensures
        r@ == compact(s@),
{
    let mut v: Vec<Cell> = Vec::new();
    let mut i: usize = 0;
    while i < s.len()
        invariant
            i <= s@.len(),
            v@ == compact(s@.subrange(0, i as int)),
        decreases s@.len() - i,
    {
        let c = s[i];
        assert(s@.subrange(0, i + 1).drop_last() =~= s@.subrange(0, i as int));
        if c.is_some() {
            v.push(c);
        }
        i = i + 1;
    }
    assert(s@.subrange(0, s@.len() as int) =~= s@);
    v
}

/// Divides `mem` at `rh` and `wh`: the parent's new tape, and the
/// offspring's tape after the frameshift `f`, if any is left.
pub fn divide(mem: &Memory, rh: usize, wh: usize, f: Option<Frameshift>) -> (r: (
    Memory,
    Option<Memory>,
))
    requires
        rh <= mem@.len(),
        wh <= mem@.len(),
        mem@.len() <= MAX_TAPE_SIZE,
    ensures
        r.0@ == divided_parent(mem@, rh as nat),
        r.1 is None <==> divided_offspring(mem@, rh as nat, wh as nat, f) is None,
        r.1 is Some ==> divided_offspring(mem@, rh as nat, wh as nat, f) == Some(r.1->0@),
        r.0.wf(),
        r.1 is Some ==> r.1->0.wf(),
{
    let n = mem.memsize();
    let parent = Memory::from_cells(compact_range(mem, 0, rh));
    let lo = if rh <= wh {
        rh
    } else {
        wh
    };
    let hi = if rh <= wh {
        wh
    } else {
        rh
    };
    let mut region = copy_range(mem, lo, hi);
    let bound: usize = if n <= MAX_TAPE_SIZE / OFFSPRING_MAX_GROWTH {
        OFFSPRING_MAX_GROWTH * n
    } else {
        MAX_TAPE_SIZE
    };
    assert(bound == offspring_bound(n as nat));
    match f {
        None => {},
        Some(fs) => match fs.insert {
            Some(c) => {
                if fs.position <= region.len() && region.len() < bound {
                    region.insert(fs.position, Some(c));
                }
            },
            None => {
                if fs.position < region.len() {
                    region.remove(fs.position);
                }
            },
        },
    }
    assert(region@ == frameshifted(mem@.subrange(lo as int, hi as int), f, n as nat));
    let o = compact_vec(&region);
    proof {
        lemma_compact_len(mem@.subrange(0, rh as int));
        lemma_compact_len(region@);
    }
    if o.len() == 0 {
        (parent, None)
    } else {
        (parent, Some(Memory::from_cells(o)))
    }
}

/// Whether the complement `pat` stands in the `m` ring cells of `mem` from
/// `start` on.
pub fn region_contains(mem: &Memory, start: usize, m: usize, pat: &Vec<Cell>) -> (r: bool)
    requires
        0 < mem@.len() <= MAX_TAPE_SIZE,
        start < mem@.len(),
        m <= mem@.len(),
    ensures
        r == contains_run(ring_region(mem@, start as nat, m as nat), pat@),
{
    let ghost hay = ring_region(mem@, start as nat, m as nat);
    if pat.len() > m {
        proof {
            assert forall|j: int| 0 <= j && j + pat@.len() <= hay.len() implies #[trigger] hay.subrange(
                j,
                j + pat@.len(),
            ) != pat@ by {}
        }
        return false;
    }
    let n = mem.memsize();
    let plen = pat.len();
    let mut j: usize = 0;
    while j <= m - plen
        invariant
            n == mem@.len(),
            0 < n <= MAX_TAPE_SIZE,
            start < n,
            m <= n,
            plen == pat@.len(),
            plen <= m,
            hay == ring_region(mem@, start as nat, m as nat),
            j <= m - plen + 1,
            forall|i: int| 0 <= i < j ==> #[trigger] hay.subrange(i, i + plen) != pat@,
        decreases m - plen + 1 - j,
    {
        let mut k: usize = 0;
        let mut same = true;
        while k < plen
            invariant
                n == mem@.len(),
                0 < n <= MAX_TAPE_SIZE,
                start < n,
                j + plen <= m <= n,
                plen == pat@.len(),
                k <= plen,
                hay == ring_region(mem@, start as nat, m as nat),
                same == (forall|q: int| 0 <= q < k ==> hay[j + q] == #[trigger] pat@[q]),
            decreases plen - k,
        {
            if !cell_eq(mem.get((start + j + k) % n), pat[k]) {
                same = false;
            }
            k = k + 1;
        }
        if same {
            assert(hay.subrange(j as int, j + plen) =~= pat@);
            return true;
        }
        proof {
            assert(!(forall|q: int| 0 <= q < plen ==> hay[j + q] == #[trigger] pat@[q]));
            let q = choose|q: int| 0 <= q < plen && hay[j + q] != pat@[q];
            assert(hay.subrange(j as int, j + plen)[q] != pat@[q]);
        }
        j = j + 1;
    }
    false
}

} // verus!
