//! A direct interpreter of VM instruction lists.  Arithmetic is 16-bit
//! two's-complement; comparisons push `-1` for true and `0` for false; each
//! memory segment is a small write-shadowing store.  The call-convention
//! opcodes are not interpreted here: they are realized by the lowering, and
//! meeting one halts the interpreter.

use crate::cpu::hack_cpu::{neg16, neg16_exec, not16, wrap16, add16_exec, sub16_exec};
use crate::vm::{dup_instruction, Segment, VMInstruction};
use vstd::prelude::*;

verus! {

/// The value bound to `k`: the newest entry for the key, or `None`.
pub open spec fn assoc_get(m: Seq<(usize, i16)>, k: usize) -> Option<i16>
    decreases m.len(),
{
    if m.len() == 0 {
        None
    } else if m[0].0 == k {
        Some(m[0].1)
    } else {
        assoc_get(m.drop_first(), k)
    }
}

/// The mathematical interpreter state.
pub ghost struct VmState {
    pub stack: Seq<i16>,
    pub this_seg: Seq<(usize, i16)>,
    pub that_seg: Seq<(usize, i16)>,
    pub local_seg: Seq<(usize, i16)>,
    pub argument_seg: Seq<(usize, i16)>,
    pub pointer_seg: Seq<(usize, i16)>,
    pub temp_seg: Seq<(usize, i16)>,
    pub static_seg: Seq<(usize, i16)>,
    pub pc: nat,
    pub program: Seq<VMInstruction>,
    pub running: bool,
}

/// The store of one segment.
pub open spec fn seg_seq(s: VmState, seg: Segment) -> Seq<(usize, i16)> {
    match seg {
        Segment::This => s.this_seg,
        Segment::That => s.that_seg,
        Segment::Local => s.local_seg,
        Segment::Argument => s.argument_seg,
        Segment::Pointer => s.pointer_seg,
        Segment::Temp => s.temp_seg,
        Segment::Static => s.static_seg,
    }
}

/// The state with one segment's store replaced.
pub open spec fn with_seg(s: VmState, seg: Segment, m: Seq<(usize, i16)>) -> VmState {
    match seg {
        Segment::This => VmState { this_seg: m, ..s },
        Segment::That => VmState { that_seg: m, ..s },
        Segment::Local => VmState { local_seg: m, ..s },
        Segment::Argument => VmState { argument_seg: m, ..s },
        Segment::Pointer => VmState { pointer_seg: m, ..s },
        Segment::Temp => VmState { temp_seg: m, ..s },
        Segment::Static => VmState { static_seg: m, ..s },
    }
}

/// The state with the running flag cleared: a faulted or finished machine.
pub open spec fn halted(s: VmState) -> VmState {
    VmState { running: false, ..s }
}

/// The key a segment index addresses.
pub open spec fn seg_key(addr: i16) -> usize {
    addr as usize
}

/// What one instruction does to the state, the program counter aside:
/// stack pushes and pops, segment reads and writes, and the ALU operations
/// with 16-bit wrap-around.  An empty-stack pop, a read of an
/// uninitialized cell, and the uninterpreted `function`/`call`/`return`
/// opcodes halt the machine.
pub open spec fn execute_spec(s: VmState, instr: VMInstruction) -> VmState {
    match instr {
        VMInstruction::PushConst(v) => VmState { stack: s.stack.push(v), ..s },
        VMInstruction::Push(seg, addr) => match assoc_get(seg_seq(s, seg), seg_key(addr)) {
            Some(v) => VmState { stack: s.stack.push(v), ..s },
            None => halted(s),
        },
        VMInstruction::Pop(seg, addr) => if s.stack.len() == 0 {
            halted(s)
        } else {
            let v = s.stack.last();
            let s1 = VmState { stack: s.stack.drop_last(), ..s };
            with_seg(s1, seg, seq![(seg_key(addr), v)] + seg_seq(s1, seg))
        },
        VMInstruction::Add => binop_spec(s, true, false),
        VMInstruction::Sub => binop_spec(s, false, false),
        VMInstruction::And => bitop_spec(s, true),
        VMInstruction::Or => bitop_spec(s, false),
        VMInstruction::Neg => if s.stack.len() == 0 {
            halted(s)
        } else {
            VmState { stack: s.stack.drop_last().push(neg16(s.stack.last())), ..s }
        },
        VMInstruction::Not => if s.stack.len() == 0 {
            halted(s)
        } else {
            VmState { stack: s.stack.drop_last().push(not16(s.stack.last())), ..s }
        },
        VMInstruction::Eq => cmp_spec(s, 0),
        VMInstruction::Gt => cmp_spec(s, 1),
        VMInstruction::Lt => cmp_spec(s, 2),
        VMInstruction::Label(_) => s,
        VMInstruction::Goto(a) => VmState { pc: a as nat, ..s },
        VMInstruction::IfGoto(a) => if s.stack.len() == 0 {
            halted(s)
        } else if s.stack.last() != 0 {
            VmState { stack: s.stack.drop_last(), pc: a as nat, ..s }
        } else {
            VmState { stack: s.stack.drop_last(), ..s }
        },
        VMInstruction::Function(_, _) => halted(s),
        VMInstruction::Call(_, _) => halted(s),
        VMInstruction::Return => halted(s),
    }
}

/// An `add` or `sub` over the two topmost values, the earlier push on the
/// left.
pub open spec fn binop_spec(s: VmState, is_add: bool, unused: bool) -> VmState {
    if s.stack.len() < 2 {
        halted(s)
    } else {
        let y = s.stack.last();
        let x = s.stack.drop_last().last();
        let r = if is_add {
            wrap16(x + y)
        } else {
            wrap16(x - y)
        };
        VmState { stack: s.stack.drop_last().drop_last().push(r), ..s }
    }
}

/// An `and` or `or` over the two topmost values.
pub open spec fn bitop_spec(s: VmState, is_and: bool) -> VmState {
    if s.stack.len() < 2 {
        halted(s)
    } else {
        let y = s.stack.last();
        let x = s.stack.drop_last().last();
        let r: i16 = if is_and {
            x & y
        } else {
            x | y
        };
        VmState { stack: s.stack.drop_last().drop_last().push(r), ..s }
    }
}

/// A comparison over the two topmost values, pushing `-1` for true and `0`
/// for false; `which` selects equality, greater-than or less-than.
pub open spec fn cmp_spec(s: VmState, which: int) -> VmState {
    if s.stack.len() < 2 {
        halted(s)
    } else {
        let y = s.stack.last();
        let x = s.stack.drop_last().last();
        let holds = if which == 0 {
            x == y
        } else if which == 1 {
            x > y
        } else {
            x < y
        };
        let r: i16 = if holds {
            -1 as i16
        } else {
            0
        };
        VmState { stack: s.stack.drop_last().drop_last().push(r), ..s }
    }
}

/// The state one step later: a stopped machine stays put; the program
/// counter follows a taken branch and otherwise advances by one.
pub open spec fn vm_step_spec(s: VmState) -> VmState {
    if !s.running {
        s
    } else if s.pc >= s.program.len() {
        halted(s)
    } else {
        match s.program[s.pc as int] {
            VMInstruction::Goto(a) => VmState { pc: a as nat, ..s },
            VMInstruction::IfGoto(a) => if s.stack.len() == 0 {
                halted(s)
            } else if s.stack.last() != 0 {
                VmState { stack: s.stack.drop_last(), pc: a as nat, ..s }
            } else {
                VmState { stack: s.stack.drop_last(), pc: s.pc + 1, ..s }
            },
            instr => {
                let s1 = execute_spec(s, instr);
                VmState { pc: s.pc + 1, ..s1 }
            },
        }
    }
}

/// The interpreter: an operand stack, the seven segment stores, and the
/// loaded program.
pub struct JackVM {
    pub stack: Vec<i16>,
    pub this_seg: Vec<(usize, i16)>,
    pub that_seg: Vec<(usize, i16)>,
    pub local_seg: Vec<(usize, i16)>,
    pub argument_seg: Vec<(usize, i16)>,
    pub pointer_seg: Vec<(usize, i16)>,
    pub temp_seg: Vec<(usize, i16)>,
    pub static_seg: Vec<(usize, i16)>,
    pub program_counter: usize,
    pub program: Vec<VMInstruction>,
    pub is_running: bool,
}

impl View for JackVM {
    type V = VmState;

    open spec fn view(&self) -> VmState {
        VmState {
            stack: self.stack@,
            this_seg: self.this_seg@,
            that_seg: self.that_seg@,
            local_seg: self.local_seg@,
            argument_seg: self.argument_seg@,
            pointer_seg: self.pointer_seg@,
            temp_seg: self.temp_seg@,
            static_seg: self.static_seg@,
            pc: self.program_counter as nat,
            program: self.program@,
            running: self.is_running,
        }
    }
}

impl JackVM {
    /// A fresh machine over the given program; one with no program at all
    /// starts out stopped.
    pub fn new(program: Vec<VMInstruction>) -> (vm: Self)
        ensures
            vm@.stack == Seq::<i16>::empty(),
            vm@.this_seg == Seq::<(usize, i16)>::empty(),
            vm@.that_seg == Seq::<(usize, i16)>::empty(),
            vm@.local_seg == Seq::<(usize, i16)>::empty(),
            vm@.argument_seg == Seq::<(usize, i16)>::empty(),
            vm@.pointer_seg == Seq::<(usize, i16)>::empty(),
            vm@.temp_seg == Seq::<(usize, i16)>::empty(),
            vm@.static_seg == Seq::<(usize, i16)>::empty(),
            vm@.pc == 0,
            vm@.program == program@,
            vm@.running == (program@.len() != 0),
    {
        let is_running = program.len() != 0;
        JackVM {
            stack: Vec::new(),
            this_seg: Vec::new(),
            that_seg: Vec::new(),
            local_seg: Vec::new(),
            argument_seg: Vec::new(),
            pointer_seg: Vec::new(),
            temp_seg: Vec::new(),
            static_seg: Vec::new(),
            program_counter: 0,
            program,
            is_running,
        }
    }

    /// The newest value a segment holds at an address.
    pub fn seg_val(&self, seg: Segment, addr: usize) -> (r: Option<i16>)
        ensures
            r == assoc_get(seg_seq(self@, seg), addr),
    {
        match seg {
            Segment::This => assoc_get_exec(&self.this_seg, addr),
            Segment::That => assoc_get_exec(&self.that_seg, addr),
            Segment::Local => assoc_get_exec(&self.local_seg, addr),
            Segment::Argument => assoc_get_exec(&self.argument_seg, addr),
            Segment::Pointer => assoc_get_exec(&self.pointer_seg, addr),
            Segment::Temp => assoc_get_exec(&self.temp_seg, addr),
            Segment::Static => assoc_get_exec(&self.static_seg, addr),
        }
    }

    /// Records a value in a segment, shadowing any earlier entry.
    fn seg_insert(&mut self, seg: Segment, addr: usize, val: i16)
        ensures
            final(self)@ == with_seg(
                old(self)@,
                seg,
                seq![(addr, val)] + seg_seq(old(self)@, seg),
            ),
    {
        match seg {
            Segment::This => {
                self.this_seg.insert(0, (addr, val));
                proof {
                    assert(self.this_seg@ =~= seq![(addr, val)] + old(self).this_seg@);
                }
            },
            Segment::That => {
                self.that_seg.insert(0, (addr, val));
                proof {
                    assert(self.that_seg@ =~= seq![(addr, val)] + old(self).that_seg@);
                }
            },
            Segment::Local => {
                self.local_seg.insert(0, (addr, val));
                proof {
                    assert(self.local_seg@ =~= seq![(addr, val)] + old(self).local_seg@);
                }
            },
            Segment::Argument => {
                self.argument_seg.insert(0, (addr, val));
                proof {
                    assert(self.argument_seg@ =~= seq![(addr, val)] + old(self).argument_seg@);
                }
            },
            Segment::Pointer => {
                self.pointer_seg.insert(0, (addr, val));
                proof {
                    assert(self.pointer_seg@ =~= seq![(addr, val)] + old(self).pointer_seg@);
                }
            },
            Segment::Temp => {
                self.temp_seg.insert(0, (addr, val));
                proof {
                    assert(self.temp_seg@ =~= seq![(addr, val)] + old(self).temp_seg@);
                }
            },
            Segment::Static => {
                self.static_seg.insert(0, (addr, val));
                proof {
                    assert(self.static_seg@ =~= seq![(addr, val)] + old(self).static_seg@);
                }
            },
        }
    }

    /// Performs one instruction on the state; the program counter moves
    /// only for a taken `goto` or `if-goto`.
    pub fn execute(&mut self, instruction: VMInstruction)
        ensures
            final(self)@ == execute_spec(old(self)@, instruction),
    {
        match instruction {
            VMInstruction::PushConst(v) => {
                self.stack.push(v);
            },
            VMInstruction::Push(seg, addr) => {
                let key = (#[verifier::truncate] (addr as usize));
                match self.seg_val(seg, key) {
                    Some(v) => {
                        self.stack.push(v);
                    },
                    None => {
                        self.is_running = false;
                    },
                }
            },
            VMInstruction::Pop(seg, addr) => {
                let key = (#[verifier::truncate] (addr as usize));
                if self.stack.len() == 0 {
                    self.is_running = false;
                } else {
                    let v = self.stack.pop().unwrap();
                    self.seg_insert(seg, key, v);
                }
            },
            VMInstruction::Add => {
                if self.stack.len() < 2 {
                    self.is_running = false;
                } else {
                    let y = self.stack.pop().unwrap();
                    let x = self.stack.pop().unwrap();
                    self.stack.push(add16_exec(x, y));
                }
            },
            VMInstruction::Sub => {
                if self.stack.len() < 2 {
                    self.is_running = false;
                } else {
                    let y = self.stack.pop().unwrap();
                    let x = self.stack.pop().unwrap();
                    self.stack.push(sub16_exec(x, y));
                }
            },
            VMInstruction::And => {
                if self.stack.len() < 2 {
                    self.is_running = false;
                } else {
                    let y = self.stack.pop().unwrap();
                    let x = self.stack.pop().unwrap();
                    self.stack.push(x & y);
                }
            },
            VMInstruction::Or => {
                if self.stack.len() < 2 {
                    self.is_running = false;
                } else {
                    let y = self.stack.pop().unwrap();
                    let x = self.stack.pop().unwrap();
                    self.stack.push(x | y);
                }
            },
            VMInstruction::Neg => {
                if self.stack.len() == 0 {
                    self.is_running = false;
                } else {
                    let x = self.stack.pop().unwrap();
                    self.stack.push(neg16_exec(x));
                }
            },
            VMInstruction::Not => {
                if self.stack.len() == 0 {
                    self.is_running = false;
                } else {
                    let x = self.stack.pop().unwrap();
                    self.stack.push(-1 - x);
                }
            },
            VMInstruction::Eq => {
                if self.stack.len() < 2 {
                    self.is_running = false;
                } else {
                    let y = self.stack.pop().unwrap();
                    let x = self.stack.pop().unwrap();
                    self.stack.push(if x == y { -1 } else { 0 });
                }
            },
            VMInstruction::Gt => {
                if self.stack.len() < 2 {
                    self.is_running = false;
                } else {
                    let y = self.stack.pop().unwrap();
                    let x = self.stack.pop().unwrap();
                    self.stack.push(if x > y { -1 } else { 0 });
                }
            },
            VMInstruction::Lt => {
                if self.stack.len() < 2 {
                    self.is_running = false;
                } else {
                    let y = self.stack.pop().unwrap();
                    let x = self.stack.pop().unwrap();
                    self.stack.push(if x < y { -1 } else { 0 });
                }
            },
            VMInstruction::Label(_) => (),
            VMInstruction::Goto(a) => {
                self.program_counter = a;
            },
            VMInstruction::IfGoto(a) => {
                if self.stack.len() == 0 {
                    self.is_running = false;
                } else {
                    let v = self.stack.pop().unwrap();
                    if v != 0 {
                        self.program_counter = a;
                    }
                }
            },
            VMInstruction::Function(_, _) => {
                self.is_running = false;
            },
            VMInstruction::Call(_, _) => {
                self.is_running = false;
            },
            VMInstruction::Return => {
                self.is_running = false;
            },
        }
    }

    /// One step: fetch the instruction under the program counter, perform
    /// it, and advance; a stopped machine stays put.
    pub fn step(&mut self)
        ensures
            final(self)@ == vm_step_spec(old(self)@),
    {
        if !self.is_running {
            return ;
        }
        if self.program_counter >= self.program.len() {
            self.is_running = false;
            return ;
        }
        let instr = dup_instruction(&self.program[self.program_counter]);
        match instr {
            VMInstruction::Goto(a) => {
                self.program_counter = a;
            },
            VMInstruction::IfGoto(a) => {
                if self.stack.len() == 0 {
                    self.is_running = false;
                } else {
                    let v = self.stack.pop().unwrap();
                    if v != 0 {
                        self.program_counter = a;
                    } else {
                        self.program_counter = self.program_counter + 1;
                    }
                }
            },
            _ => {
                self.execute(instr);
                self.program_counter = self.program_counter + 1;
            },
        }
    }
}

/// The newest entry for a key, looking from the front.
fn assoc_get_exec(m: &Vec<(usize, i16)>, k: usize) -> (r: Option<i16>)
    ensures
        r == assoc_get(m@, k),
{
    let mut j: usize = 0;
    proof {
        assert(m@.skip(0) =~= m@);
    }
    while j < m.len()
        invariant
            j <= m@.len(),
            forall|t: int| 0 <= t < j ==> (#[trigger] m@[t]).0 != k,
            assoc_get(m@, k) == assoc_get(m@.skip(j as int), k),
        decreases m@.len() - j,
    {
        if m[j].0 == k {
            proof {
                assert(m@.skip(j as int)[0] == m@[j as int]);
            }
            return Some(m[j].1);
        }
        proof {
            assert(m@.skip(j as int).drop_first() =~= m@.skip(j + 1));
        }
        j = j + 1;
    }
    proof {
        assert(m@.skip(j as int) =~= Seq::<(usize, i16)>::empty());
    }
    None
}

} // verus!
