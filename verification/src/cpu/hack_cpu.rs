//! A cycle-stepped interpreter of the Hack instruction stream: one ROM
//! fetch-decode-execute cycle per `step`, over a 64K RAM of signed 16-bit
//! cells.

use crate::cpu::{CPUInstruction, Comp, Dest, Jump};
use vstd::prelude::*;

verus! {

/// Number of RAM cells: one for every 16-bit address.
pub const RAM_SIZE: usize = 0x10000;

/// Reduction of an unbounded integer to the signed 16-bit value with the
/// same low 16 bits.
pub open spec fn wrap16(n: int) -> i16 {
    if n % 0x10000 >= 0x8000 {
        (n % 0x10000 - 0x10000) as i16
    } else {
        (n % 0x10000) as i16
    }
}

/// Bitwise negation of a 16-bit word.
pub open spec fn not16(x: i16) -> i16 {
    (-1 - x) as i16
}

/// Arithmetic negation with two's-complement wrap-around.
pub open spec fn neg16(x: i16) -> i16 {
    if x == i16::MIN {
        i16::MIN
    } else {
        (-(x as int)) as i16
    }
}

/// The RAM address selected by the A register: its low 16 bits, unsigned.
pub open spec fn addr_of(a: i16) -> int {
    (a as u16) as int
}

/// The ALU output for one `comp` code over the current D, A and M values.
pub open spec fn alu_spec(c: Comp, d: i16, a: i16, m: i16) -> i16 {
    match c {
        Comp::Zero => 0,
        Comp::One => 1,
        Comp::MinusOne => -1 as i16,
        Comp::D => d,
        Comp::A => a,
        Comp::M => m,
        Comp::NotD => not16(d),
        Comp::NotA => not16(a),
        Comp::NotM => not16(m),
        Comp::MinusD => neg16(d),
        Comp::MinusA => neg16(a),
        Comp::MinusM => neg16(m),
        Comp::DPulsOne => wrap16(d + 1),
        Comp::APulsOne => wrap16(a + 1),
        Comp::MPlusOne => wrap16(m + 1),
        Comp::DMinusOne => wrap16(a - 1),
        Comp::AMinusOne => wrap16(d - 1),
        Comp::MMinusOne => wrap16(m - 1),
        Comp::DPulsA => wrap16(d + a),
        Comp::DPulsM => wrap16(d + m),
        Comp::DMinusA => wrap16(d - a),
        Comp::DMinusM => wrap16(d - m),
        Comp::AMinusD => wrap16(a - d),
        Comp::MMinusD => wrap16(m - d),
        Comp::DAndA => d & a,
        Comp::DAndM => d & m,
        Comp::DOrA => d | a,
        Comp::DOrM => d | m,
    }
}

/// Which destinations a `dest` field writes.
pub open spec fn dest_writes_a(d: Dest) -> bool {
    d == Dest::A || d == Dest::AM || d == Dest::AD || d == Dest::AMD
}

pub open spec fn dest_writes_d(d: Dest) -> bool {
    d == Dest::D || d == Dest::MD || d == Dest::AD || d == Dest::AMD
}

pub open spec fn dest_writes_m(d: Dest) -> bool {
    d == Dest::M || d == Dest::MD || d == Dest::AM || d == Dest::AMD
}

/// Whether the branch condition of a `jump` code holds of an ALU output.
pub open spec fn jump_cond_spec(j: Jump, val: i16) -> bool {
    match j {
        Jump::Null => false,
        Jump::JGT => val > 0,
        Jump::JEQ => val == 0,
        Jump::JGE => val >= 0,
        Jump::JLT => val < 0,
        Jump::JNE => val != 0,
        Jump::JLE => val <= 0,
        Jump::JMP => true,
    }
}

/// The mathematical CPU state that contracts speak of.
pub ghost struct CpuState {
    pub d: i16,
    pub a: i16,
    pub pc: nat,
    pub ram: Seq<i16>,
    pub rom: Seq<CPUInstruction>,
}

/// The state after the destination writes of a C-instruction with ALU
/// output `val`.  When A is rewritten in the same cycle, the M write still
/// goes to the cell that the old A selected.
pub open spec fn store_dest_spec(s: CpuState, dest: Dest, val: i16) -> CpuState {
    CpuState {
        d: if dest_writes_d(dest) {
            val
        } else {
            s.d
        },
        a: if dest_writes_a(dest) {
            val
        } else {
            s.a
        },
        pc: s.pc,
        ram: if dest_writes_m(dest) {
            s.ram.update(addr_of(s.a), val)
        } else {
            s.ram
        },
        rom: s.rom,
    }
}

/// The program counter after the jump decision: the low 16 bits of the
/// (possibly rewritten) A register on a taken branch, the next line
/// otherwise.
pub open spec fn jump_spec(j: Jump, val: i16, a_after: i16, pc: nat) -> nat {
    if jump_cond_spec(j, val) {
        addr_of(a_after) as nat
    } else {
        pc + 1
    }
}

/// The state one C-instruction later.
pub open spec fn step_c_spec(s: CpuState, c: Comp, d: Dest, j: Jump) -> CpuState {
    let val = alu_spec(c, s.d, s.a, s.ram[addr_of(s.a)]);
    let s1 = store_dest_spec(s, d, val);
    CpuState { d: s1.d, a: s1.a, pc: jump_spec(j, val, s1.a, s.pc), ram: s1.ram, rom: s1.rom }
}

/// The state one instruction later; a state whose PC is outside the ROM is
/// left unchanged.
pub open spec fn step_spec(s: CpuState) -> CpuState {
    if s.pc >= s.rom.len() {
        s
    } else {
        match s.rom[s.pc as int] {
            CPUInstruction::AInstruc(v) => CpuState {
                d: s.d,
                a: v,
                pc: s.pc + 1,
                ram: s.ram,
                rom: s.rom,
            },
            CPUInstruction::CInstruc(c, d, j) => step_c_spec(s, c, d, j),
        }
    }
}

/// 16-bit addition with wrap-around.
pub fn add16_exec(x: i16, y: i16) -> (r: i16)
    ensures
        r == wrap16(x + y),
{
    proof {
        if x + y >= 0 {
            assert((x + y) % 0x10000 == x + y);
        } else {
            assert((x + y) % 0x10000 == x + y + 0x10000);
        }
    }
    x.wrapping_add(y)
}

/// 16-bit subtraction with wrap-around.
pub fn sub16_exec(x: i16, y: i16) -> (r: i16)
    ensures
        r == wrap16(x - y),
{
    proof {
        if x - y >= 0 {
            assert((x - y) % 0x10000 == x - y);
        } else {
            assert((x - y) % 0x10000 == x - y + 0x10000);
        }
    }
    x.wrapping_sub(y)
}

/// Arithmetic negation with two's-complement wrap-around.
pub fn neg16_exec(x: i16) -> (r: i16)
    ensures
        r == neg16(x),
{
    if x == i16::MIN {
        i16::MIN
    } else {
        -x
    }
}


/// The state after `n` steps.
pub open spec fn run_steps(s: CpuState, n: nat) -> CpuState
    decreases n,
{
    if n == 0 {
        s
    } else {
        run_steps(step_spec(s), (n - 1) as nat)
    }
}

/// Running `m + n` steps is running `m`, and `n` more.
pub proof fn lemma_run_steps_add(s: CpuState, m: nat, n: nat)
    ensures
        run_steps(s, m + n) == run_steps(run_steps(s, m), n),
    decreases m,
{
    if m > 0 {
        lemma_run_steps_add(step_spec(s), (m - 1) as nat, n);
    }
}

/// The CPU: registers, program counter, data memory and the loaded program.
pub struct HackCpu {
    pub d_reg: i16,
    pub a_reg: i16,
    pub pc: usize,
    pub ram: Vec<i16>,
    pub rom: Vec<CPUInstruction>,
}

impl View for HackCpu {
    type V = CpuState;

    open spec fn view(&self) -> CpuState {
        CpuState {
            d: self.d_reg,
            a: self.a_reg,
            pc: self.pc as nat,
            ram: self.ram@,
            rom: self.rom@,
        }
    }
}

impl HackCpu {
    /// Well-formedness: the RAM covers every 16-bit address.
    pub open spec fn wf(&self) -> bool {
        self.ram.len() == RAM_SIZE
    }

    /// A fresh CPU over the given program: cleared registers and RAM, PC at
    /// the first line.
    pub fn new(program: Vec<CPUInstruction>) -> (cpu: Self)
        ensures
            cpu.wf(),
            cpu@.d == 0,
            cpu@.a == 0,
            cpu@.pc == 0,
            cpu@.ram =~= Seq::new(RAM_SIZE as nat, |i: int| 0i16),
            cpu@.rom == program@,
    {
        let mut ram: Vec<i16> = Vec::new();
        let mut i: usize = 0;
        while i < RAM_SIZE
            invariant
                i <= RAM_SIZE,
                ram@.len() == i,
                forall|k: int| 0 <= k < i ==> ram@[k] == 0i16,
            decreases RAM_SIZE - i,
        {
            ram.push(0);
            i += 1;
        }
        proof {
            assert(ram@ =~= Seq::new(RAM_SIZE as nat, |i: int| 0i16));
        }
        HackCpu { d_reg: 0, a_reg: 0, pc: 0, ram, rom: program }
    }

    /// Whether stepping still makes progress: the PC names a ROM line.
    pub fn is_running(&self) -> (r: bool)
        ensures
            r == (self@.pc < self@.rom.len()),
    {
        self.pc < self.rom.len()
    }

    /// The ALU output of one `comp` code in the current state.
    #[verifier::rlimit(60)]
    fn compute(&self, comp: Comp) -> (val: i16)
        requires
            self.wf(),
        ensures
            val == alu_spec(comp, self@.d, self@.a, self@.ram[addr_of(self@.a)]),
    {
        let m_addr: usize = (self.a_reg as u16) as usize;
        match comp {
            Comp::Zero => 0,
            Comp::One => 1,
            Comp::MinusOne => -1,
            Comp::D => self.d_reg,
            Comp::A => self.a_reg,
            Comp::M => self.ram[m_addr],
            Comp::NotD => -1 - self.d_reg,
            Comp::NotA => -1 - self.a_reg,
            Comp::NotM => -1 - self.ram[m_addr],
            Comp::MinusD => neg16_exec(self.d_reg),
            Comp::MinusA => neg16_exec(self.a_reg),
            Comp::MinusM => neg16_exec(self.ram[m_addr]),
            Comp::DPulsOne => add16_exec(self.d_reg, 1),
            Comp::APulsOne => add16_exec(self.a_reg, 1),
            Comp::MPlusOne => add16_exec(self.ram[m_addr], 1),
            Comp::DMinusOne => sub16_exec(self.a_reg, 1),
            Comp::AMinusOne => sub16_exec(self.d_reg, 1),
            Comp::MMinusOne => sub16_exec(self.ram[m_addr], 1),
            Comp::DPulsA => add16_exec(self.d_reg, self.a_reg),
            Comp::DPulsM => add16_exec(self.d_reg, self.ram[m_addr]),
            Comp::DMinusA => sub16_exec(self.d_reg, self.a_reg),
            Comp::DMinusM => sub16_exec(self.d_reg, self.ram[m_addr]),
            Comp::AMinusD => sub16_exec(self.a_reg, self.d_reg),
            Comp::MMinusD => sub16_exec(self.ram[m_addr], self.d_reg),
            Comp::DAndA => self.d_reg & self.a_reg,
            Comp::DAndM => self.d_reg & self.ram[m_addr],
            Comp::DOrA => self.d_reg | self.a_reg,
            Comp::DOrM => self.d_reg | self.ram[m_addr],
        }
    }

    /// Applies the destination writes; M goes to the cell the pre-update A
    /// selects.
    fn store_dest(&mut self, dest: Dest, val: i16)
        requires
            old(self).wf(),
        ensures
            final(self).wf(),
            final(self)@ == store_dest_spec(old(self)@, dest, val),
    {
        let m_addr: usize = (self.a_reg as u16) as usize;
        match dest {
            Dest::Null => (),
            Dest::M => {
                self.ram.set(m_addr, val);
            },
            Dest::D => {
                self.d_reg = val;
            },
            Dest::MD => {
                self.ram.set(m_addr, val);
                self.d_reg = val;
            },
            Dest::A => {
                self.a_reg = val;
            },
            Dest::AM => {
                self.ram.set(m_addr, val);
                self.a_reg = val;
            },
            Dest::AD => {
                self.a_reg = val;
                self.d_reg = val;
            },
            Dest::AMD => {
                self.ram.set(m_addr, val);
                self.a_reg = val;
                self.d_reg = val;
            },
        }
    }

    /// Applies the jump decision to the program counter.
    fn jump(&mut self, jump: Jump, val: i16)
        requires
            old(self)@.pc < old(self)@.rom.len(),
        ensures
            final(self)@ == (CpuState {
                pc: jump_spec(jump, val, old(self)@.a, old(self)@.pc),
                ..old(self)@
            }),
            final(self).wf() == old(self).wf(),
    {
        let should_jmp = match jump {
            Jump::Null => false,
            Jump::JGT => val > 0,
            Jump::JEQ => val == 0,
            Jump::JGE => val >= 0,
            Jump::JLT => val < 0,
            Jump::JNE => val != 0,
            Jump::JLE => val <= 0,
            Jump::JMP => true,
        };
        if should_jmp {
            self.pc = (#[verifier::truncate] (self.a_reg as u16)) as usize;
        } else {
            let n = self.rom.len();
            self.pc = self.pc + 1;
        }
    }

    /// One fetch-decode-execute cycle.  With the PC outside the ROM the
    /// step is a no-op, so a halted CPU stays put.
    pub fn step(&mut self)
        requires
            old(self).wf(),
        ensures
            final(self).wf(),
            final(self)@ == step_spec(old(self)@),
    {
        if self.pc >= self.rom.len() {
            return ;
        }
        match self.rom[self.pc] {
            CPUInstruction::AInstruc(v) => {
                self.a_reg = v;
                self.pc = self.pc + 1;
            },
            CPUInstruction::CInstruc(comp, dest, jump) => {
                let val = self.compute(comp);
                self.store_dest(dest, val);
                self.jump(jump, val);
            },
        }
    }
}

/// The ALU meets its arithmetic reading: every add, subtract, increment and
/// decrement code computes its operands' value reduced to 16 bits, and the
/// negation codes compute two's-complement and one's-complement negation.
pub proof fn lemma_alu_coverage(d: i16, a: i16, m: i16)
    ensures
        alu_spec(Comp::DPulsA, d, a, m) == wrap16(d + a),
        alu_spec(Comp::DPulsM, d, a, m) == wrap16(d + m),
        alu_spec(Comp::DMinusA, d, a, m) == wrap16(d - a),
        alu_spec(Comp::DMinusM, d, a, m) == wrap16(d - m),
        alu_spec(Comp::AMinusD, d, a, m) == wrap16(a - d),
        alu_spec(Comp::MMinusD, d, a, m) == wrap16(m - d),
        alu_spec(Comp::MinusD, d, a, m) == wrap16(-(d as int)),
        alu_spec(Comp::MinusA, d, a, m) == wrap16(-(a as int)),
        alu_spec(Comp::MinusM, d, a, m) == wrap16(-(m as int)),
        alu_spec(Comp::NotD, d, a, m) == wrap16(-1 - d),
        alu_spec(Comp::NotA, d, a, m) == wrap16(-1 - a),
        alu_spec(Comp::NotM, d, a, m) == wrap16(-1 - m),
{
    assert(forall|x: i16| #[trigger] wrap16(x as int) == x) by {
        assert forall|x: i16| #[trigger] wrap16(x as int) == x by {
            if x >= 0 {
                assert((x as int) % 0x10000 == x as int);
            } else {
                assert((x as int) % 0x10000 == x + 0x10000);
            }
        }
    }
    assert(wrap16(-(i16::MIN as int)) == i16::MIN) by {
        assert(32768int % 0x10000 == 32768);
    }
}

/// The branch decision of every `jump` code is exactly its condition on the
/// sign of the ALU output.
pub proof fn lemma_jump_correctness(val: i16)
    ensures
        jump_cond_spec(Jump::Null, val) == false,
        jump_cond_spec(Jump::JGT, val) == (val > 0),
        jump_cond_spec(Jump::JEQ, val) == (val == 0),
        jump_cond_spec(Jump::JGE, val) == (val >= 0),
        jump_cond_spec(Jump::JLT, val) == (val < 0),
        jump_cond_spec(Jump::JNE, val) == (val != 0),
        jump_cond_spec(Jump::JLE, val) == (val <= 0),
        jump_cond_spec(Jump::JMP, val) == true,
{
}

} // verus!
