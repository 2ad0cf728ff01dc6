//! Lowering of VM instruction lists to CPU instruction sequences, keeping
//! the Hack calling convention: `SP` at RAM 0 points one past the top of
//! the stack, the four segment pointers live at RAM 1..4, `temp` at RAM
//! 5..12 and `static` from RAM 16; comparisons push `-1` for true and `0`
//! for false.

use crate::cpu::hack_cpu::{addr_of, alu_spec, jump_cond_spec, neg16, not16, run_steps,
    step_spec, lemma_run_steps_add, wrap16, CpuState};
use crate::cpu::{CPUInstruction, Comp, Dest, Jump};
use crate::vm::{Segment, VMInstruction};
use vstd::prelude::*;

verus! {

/// An address-register load of the low 16 bits of `n`.
pub open spec fn ai(n: int) -> CPUInstruction {
    CPUInstruction::AInstruc(wrap16(n))
}

/// A computation with destinations and no jump.
pub open spec fn ci(c: Comp, d: Dest) -> CPUInstruction {
    CPUInstruction::CInstruc(c, d, Jump::Null)
}

/// The base address a segment works from.  For the indirect segments it is
/// the RAM cell holding the base pointer; for the others the region
/// itself.
pub open spec fn seg_base(seg: Segment) -> int {
    match seg {
        Segment::Local => 1,
        Segment::Argument => 2,
        Segment::This => 3,
        Segment::That => 4,
        Segment::Pointer => 3,
        Segment::Temp => 5,
        Segment::Static => 16,
    }
}

/// Whether a segment goes through a base pointer in RAM.
pub open spec fn seg_indirect(seg: Segment) -> bool {
    seg == Segment::Local || seg == Segment::Argument || seg == Segment::This || seg
        == Segment::That
}

/// Writes D to the cell `SP` points at and bumps `SP`.
pub open spec fn push_d_seq() -> Seq<CPUInstruction> {
    seq![
        ai(0),
        ci(Comp::M, Dest::A),
        ci(Comp::D, Dest::M),
        ai(0),
        ci(Comp::MPlusOne, Dest::M),
    ]
}

/// `push constant k`: load the constant into D (through its bitwise
/// negation when it is negative, since an A-immediate carries 15 bits) and
/// push it.
pub open spec fn push_const_seq(k: i16) -> Seq<CPUInstruction> {
    let head = if k >= 0 {
        seq![ai(k as int), ci(Comp::A, Dest::D)]
    } else {
        seq![ai(-1 - k), ci(Comp::NotA, Dest::D)]
    };
    head + push_d_seq()
}

/// `push seg i`: read the cell into D and push it.
pub open spec fn push_seg_seq(seg: Segment, idx: i16) -> Seq<CPUInstruction> {
    if seg_indirect(seg) {
        seq![
            ai(idx as int),
            ci(Comp::A, Dest::D),
            ai(seg_base(seg)),
            ci(Comp::DPulsM, Dest::A),
            ci(Comp::M, Dest::D),
        ] + push_d_seq()
    } else {
        seq![ai(seg_base(seg) + idx), ci(Comp::M, Dest::D)] + push_d_seq()
    }
}

/// `pop seg i`: take the top of the stack into the cell.
pub open spec fn pop_seg_seq(seg: Segment, idx: i16) -> Seq<CPUInstruction> {
    if seg_indirect(seg) {
        seq![
            ai(idx as int),
            ci(Comp::A, Dest::D),
            ai(seg_base(seg)),
            ci(Comp::DPulsM, Dest::D),
            ai(13),
            ci(Comp::D, Dest::M),
            ai(0),
            ci(Comp::MMinusOne, Dest::AM),
            ci(Comp::M, Dest::D),
            ai(13),
            ci(Comp::M, Dest::A),
            ci(Comp::D, Dest::M),
        ]
    } else {
        seq![
            ai(0),
            ci(Comp::MMinusOne, Dest::AM),
            ci(Comp::M, Dest::D),
            ai(seg_base(seg) + idx),
            ci(Comp::D, Dest::M),
        ]
    }
}

/// A binary ALU operation: pop the right operand into D, then combine it
/// into the new top of the stack.  `op` computes from D and M.
pub open spec fn binop_seq(op: Comp) -> Seq<CPUInstruction> {
    seq![
        ai(0),
        ci(Comp::MMinusOne, Dest::AM),
        ci(Comp::M, Dest::D),
        ci(Comp::DMinusOne, Dest::A),
        ci(op, Dest::M),
    ]
}

/// A unary ALU operation in place on the top of the stack.
pub open spec fn unop_seq(op: Comp) -> Seq<CPUInstruction> {
    seq![ai(0), ci(Comp::MMinusOne, Dest::A), ci(op, Dest::M)]
}

/// A comparison: compute `x - y`, branch on its sign, and write `-1` or
/// `0` into the new top of the stack.  `start` is the ROM address of the
/// first instruction of this block.
pub open spec fn cmp_seq(start: int, j: Jump) -> Seq<CPUInstruction> {
    seq![
        ai(0),
        ci(Comp::MMinusOne, Dest::AM),
        ci(Comp::M, Dest::D),
        ci(Comp::DMinusOne, Dest::A),
        ci(Comp::MMinusD, Dest::D),
        ai(start + 12),
        CPUInstruction::CInstruc(Comp::D, Dest::Null, j),
        ai(0),
        ci(Comp::MMinusOne, Dest::A),
        ci(Comp::Zero, Dest::M),
        ai(start + 15),
        CPUInstruction::CInstruc(Comp::Zero, Dest::Null, Jump::JMP),
        ai(0),
        ci(Comp::MMinusOne, Dest::A),
        ci(Comp::MinusOne, Dest::M),
    ]
}

/// An unconditional branch to a ROM address.
pub open spec fn goto_seq(target: int) -> Seq<CPUInstruction> {
    seq![ai(target), CPUInstruction::CInstruc(Comp::Zero, Dest::Null, Jump::JMP)]
}

/// `if-goto`: pop, branch when the popped value is non-zero.
pub open spec fn if_goto_seq(target: int) -> Seq<CPUInstruction> {
    seq![
        ai(0),
        ci(Comp::MMinusOne, Dest::AM),
        ci(Comp::M, Dest::D),
        ai(target),
        CPUInstruction::CInstruc(Comp::D, Dest::Null, Jump::JNE),
    ]
}

/// One pushed zero of a `function` prologue.
pub open spec fn push_zero_seq() -> Seq<CPUInstruction> {
    seq![ai(0), ci(Comp::MPlusOne, Dest::M), ci(Comp::MMinusOne, Dest::A), ci(Comp::Zero, Dest::M)]
}

/// `function f k`: reserve `k` locals as zeros on the stack.
pub open spec fn function_seq(k: nat) -> Seq<CPUInstruction>
    decreases k,
{
    if k == 0 {
        Seq::empty()
    } else {
        function_seq((k - 1) as nat) + push_zero_seq()
    }
}

/// Saves the value of one RAM cell onto the stack.
pub open spec fn save_cell_seq(cell: int) -> Seq<CPUInstruction> {
    seq![ai(cell), ci(Comp::M, Dest::D)] + push_d_seq()
}

/// `call f n`: push the return address and the four saved pointers, set
/// `ARG` to `SP - 5 - n` and `LCL` to `SP`, and jump to the function;
/// `start` is the ROM address of this block, so the return address is
/// `start + 47`.
pub open spec fn call_seq(start: int, target: int, n: int) -> Seq<CPUInstruction> {
    seq![ai(start + 47), ci(Comp::A, Dest::D)] + push_d_seq() + save_cell_seq(1) + save_cell_seq(2)
        + save_cell_seq(3) + save_cell_seq(4) + seq![
        ai(5 + n),
        ci(Comp::A, Dest::D),
        ai(0),
        ci(Comp::MMinusD, Dest::D),
        ai(2),
        ci(Comp::D, Dest::M),
        ai(0),
        ci(Comp::M, Dest::D),
        ai(1),
        ci(Comp::D, Dest::M),
    ] + goto_seq(target)
}

/// `return`: stash the frame and the return address in R13 and R14, move
/// the result into `*ARG`, roll `SP` back to `ARG + 1`, restore the four
/// pointers from under the frame, and jump to the return address.
pub open spec fn return_seq() -> Seq<CPUInstruction> {
    seq![
        ai(1),
        ci(Comp::M, Dest::D),
        ai(13),
        ci(Comp::D, Dest::M),
        ai(5),
        ci(Comp::DMinusA, Dest::A),
        ci(Comp::M, Dest::D),
        ai(14),
        ci(Comp::D, Dest::M),
        ai(0),
        ci(Comp::MMinusOne, Dest::AM),
        ci(Comp::M, Dest::D),
        ai(2),
        ci(Comp::M, Dest::A),
        ci(Comp::D, Dest::M),
        ai(2),
        ci(Comp::MPlusOne, Dest::D),
        ai(0),
        ci(Comp::D, Dest::M),
        ai(13),
        ci(Comp::MMinusOne, Dest::AM),
        ci(Comp::M, Dest::D),
        ai(4),
        ci(Comp::D, Dest::M),
        ai(13),
        ci(Comp::MMinusOne, Dest::AM),
        ci(Comp::M, Dest::D),
        ai(3),
        ci(Comp::D, Dest::M),
        ai(13),
        ci(Comp::MMinusOne, Dest::AM),
        ci(Comp::M, Dest::D),
        ai(2),
        ci(Comp::D, Dest::M),
        ai(13),
        ci(Comp::MMinusOne, Dest::AM),
        ci(Comp::M, Dest::D),
        ai(1),
        ci(Comp::D, Dest::M),
        ai(14),
        ci(Comp::M, Dest::A),
        CPUInstruction::CInstruc(Comp::Zero, Dest::Null, Jump::JMP),
    ]
}

/// The number of CPU instructions one VM instruction lowers to.
pub open spec fn len_of(instr: VMInstruction) -> nat {
    match instr {
        VMInstruction::PushConst(_) => 7,
        VMInstruction::Push(seg, _) => if seg_indirect(seg) {
            10
        } else {
            7
        },
        VMInstruction::Pop(seg, _) => if seg_indirect(seg) {
            12
        } else {
            5
        },
        VMInstruction::Add => 5,
        VMInstruction::Sub => 5,
        VMInstruction::And => 5,
        VMInstruction::Or => 5,
        VMInstruction::Neg => 3,
        VMInstruction::Not => 3,
        VMInstruction::Eq => 15,
        VMInstruction::Gt => 15,
        VMInstruction::Lt => 15,
        VMInstruction::Label(_) => 0,
        VMInstruction::Goto(_) => 2,
        VMInstruction::IfGoto(_) => 5,
        VMInstruction::Function(_, k) => 4 * (k as nat),
        VMInstruction::Call(_, _) => 47,
        VMInstruction::Return => 42,
    }
}

/// The ROM address where the lowering of instruction `k` begins.
pub open spec fn offset_of(instrs: Seq<VMInstruction>, k: int) -> nat
    decreases k,
    when k >= 0
{
    if k <= 0 {
        0
    } else {
        offset_of(instrs, k - 1) + len_of(instrs[k - 1])
    }
}

/// The ROM address a VM instruction index maps to; an index past the end
/// maps to the end of the program.
pub open spec fn target_of(instrs: Seq<VMInstruction>, a: nat) -> nat {
    if a <= instrs.len() {
        offset_of(instrs, a as int)
    } else {
        offset_of(instrs, instrs.len() as int)
    }
}

/// The lowering of instruction `k` alone.
pub open spec fn lower_one(instrs: Seq<VMInstruction>, k: int) -> Seq<CPUInstruction> {
    let start = offset_of(instrs, k) as int;
    match instrs[k] {
        VMInstruction::PushConst(v) => push_const_seq(v),
        VMInstruction::Push(seg, idx) => push_seg_seq(seg, idx),
        VMInstruction::Pop(seg, idx) => pop_seg_seq(seg, idx),
        VMInstruction::Add => binop_seq(Comp::DPulsM),
        VMInstruction::Sub => binop_seq(Comp::MMinusD),
        VMInstruction::And => binop_seq(Comp::DAndM),
        VMInstruction::Or => binop_seq(Comp::DOrM),
        VMInstruction::Neg => unop_seq(Comp::MinusM),
        VMInstruction::Not => unop_seq(Comp::NotM),
        VMInstruction::Eq => cmp_seq(start, Jump::JEQ),
        VMInstruction::Gt => cmp_seq(start, Jump::JGT),
        VMInstruction::Lt => cmp_seq(start, Jump::JLT),
        VMInstruction::Label(_) => Seq::empty(),
        VMInstruction::Goto(a) => goto_seq(target_of(instrs, a as nat) as int),
        VMInstruction::IfGoto(a) => if_goto_seq(target_of(instrs, a as nat) as int),
        VMInstruction::Function(_, k2) => function_seq(k2 as nat),
        VMInstruction::Call(a, n) => call_seq(start, target_of(instrs, a as nat) as int, n as int),
        VMInstruction::Return => return_seq(),
    }
}

/// The lowering of the instructions from `k` on.
pub open spec fn lower_from(instrs: Seq<VMInstruction>, k: int) -> Seq<CPUInstruction>
    decreases instrs.len() - k,
    when 0 <= k
{
    if k >= instrs.len() {
        Seq::empty()
    } else {
        lower_one(instrs, k) + lower_from(instrs, k + 1)
    }
}

/// What `vm2asm` returns.
pub open spec fn lower_spec(instrs: Seq<VMInstruction>) -> Seq<CPUInstruction> {
    lower_from(instrs, 0)
}

/// Each block is as long as `len_of` says.
pub proof fn lemma_lower_one_len(instrs: Seq<VMInstruction>, k: int)
    requires
        0 <= k < instrs.len(),
    ensures
        lower_one(instrs, k).len() == len_of(instrs[k]),
{
    match instrs[k] {
        VMInstruction::Function(_, n) => {
            lemma_function_seq_len(n as nat);
        },
        _ => {},
    }
}

/// The `function` prologue is four instructions per local.
pub proof fn lemma_function_seq_len(k: nat)
    ensures
        function_seq(k).len() == 4 * k,
    decreases k,
{
    if k > 0 {
        lemma_function_seq_len((k - 1) as nat);
    }
}

/// Block offsets never decrease along the list.
pub proof fn lemma_offset_mono(instrs: Seq<VMInstruction>, a: int, b: int)
    requires
        0 <= a <= b,
    ensures
        offset_of(instrs, a) <= offset_of(instrs, b),
    decreases b - a,
{
    if a < b {
        lemma_offset_mono(instrs, a, b - 1);
    }
}

// ---------------------------------------------------------------------------
// Executable lowering
// ---------------------------------------------------------------------------

/// An address-register load of a small, possibly negative value.
fn ai_val(n: i32) -> (r: CPUInstruction)
    requires
        -0x10000 < n < 0x10000,
    ensures
        r == ai(n as int),
{
    let m = if n < 0 {
        n + 0x10000
    } else {
        n
    };
    if m >= 0x8000 {
        CPUInstruction::AInstruc((m - 0x10000) as i16)
    } else {
        CPUInstruction::AInstruc(m as i16)
    }
}

/// An address-register load of the low 16 bits of an address.
fn ai_usize(n: usize) -> (r: CPUInstruction)
    ensures
        r == ai(n as int),
{
    let m = n % 0x10000;
    if m >= 0x8000 {
        CPUInstruction::AInstruc(((m as i32) - 0x10000) as i16)
    } else {
        CPUInstruction::AInstruc(m as i16)
    }
}

/// The base address of a segment.
fn seg_base_exec(seg: Segment) -> (r: i32)
    ensures
        r as int == seg_base(seg),
{
    match seg {
        Segment::Local => 1,
        Segment::Argument => 2,
        Segment::This => 3,
        Segment::That => 4,
        Segment::Pointer => 3,
        Segment::Temp => 5,
        Segment::Static => 16,
    }
}

fn seg_indirect_exec(seg: Segment) -> (r: bool)
    ensures
        r == seg_indirect(seg),
{
    match seg {
        Segment::Local => true,
        Segment::Argument => true,
        Segment::This => true,
        Segment::That => true,
        _ => false,
    }
}

/// Emits the push-D epilogue.
fn emit_push_d(out: &mut Vec<CPUInstruction>)
    ensures
        final(out)@ == old(out)@ + push_d_seq(),
{
    out.push(ai_usize(0));
    out.push(CPUInstruction::CInstruc(Comp::M, Dest::A, Jump::Null));
    out.push(CPUInstruction::CInstruc(Comp::D, Dest::M, Jump::Null));
    out.push(ai_usize(0));
    out.push(CPUInstruction::CInstruc(Comp::MPlusOne, Dest::M, Jump::Null));
    proof {
        assert(out@ =~= old(out)@ + push_d_seq());
    }
}

/// Emits the save of one RAM cell for a `call`.
fn emit_save_cell(out: &mut Vec<CPUInstruction>, cell: i32)
    requires
        0 <= cell < 0x8000,
    ensures
        final(out)@ == old(out)@ + save_cell_seq(cell as int),
{
    out.push(ai_val(cell));
    out.push(CPUInstruction::CInstruc(Comp::M, Dest::D, Jump::Null));
    emit_push_d(out);
    proof {
        assert(out@ =~= old(out)@ + save_cell_seq(cell as int));
    }
}

/// Lowers a VM instruction list into one CPU instruction sequence.  Every
/// `goto`, `if-goto` and `call` lands on the first CPU instruction of its
/// target block; a `call` pushes the address just after its own block as
/// the return address.
#[verifier::loop_isolation(false)]
#[verifier::rlimit(60)]
pub fn vm2asm(instrucs: Vec<VMInstruction>) -> (r: Vec<CPUInstruction>)
    requires
        offset_of(instrucs@, instrucs@.len() as int) <= usize::MAX,
    ensures
        r@ == lower_spec(instrucs@),
{
    let n = instrucs.len();
    let ghost iv = instrucs@;
    // Block offsets, one per instruction plus the end.
    let mut off: Vec<usize> = Vec::new();
    off.push(0);
    let mut k: usize = 0;
    while k < n
        invariant
            k <= n,
            n == iv.len(),
            iv == instrucs@,
            off@.len() == k + 1,
            forall|j: int| 0 <= j <= k ==> off@[j] == offset_of(iv, j),
        decreases n - k,
    {
        proof {
            lemma_offset_mono(iv, k + 1, iv.len() as int);
            assert(offset_of(iv, k + 1) == offset_of(iv, k as int) + len_of(iv[k as int]));
        }
        let prev = off[k];
        let step: usize = match &instrucs[k] {
            VMInstruction::PushConst(_) => 7,
            VMInstruction::Push(seg, _) => if seg_indirect_exec(*seg) {
                10
            } else {
                7
            },
            VMInstruction::Pop(seg, _) => if seg_indirect_exec(*seg) {
                12
            } else {
                5
            },
            VMInstruction::Add => 5,
            VMInstruction::Sub => 5,
            VMInstruction::And => 5,
            VMInstruction::Or => 5,
            VMInstruction::Neg => 3,
            VMInstruction::Not => 3,
            VMInstruction::Eq => 15,
            VMInstruction::Gt => 15,
            VMInstruction::Lt => 15,
            VMInstruction::Label(_) => 0,
            VMInstruction::Goto(_) => 2,
            VMInstruction::IfGoto(_) => 5,
            VMInstruction::Function(_, k2) => 4 * *k2,
            VMInstruction::Call(_, _) => 47,
            VMInstruction::Return => 42,
        };
        off.push(prev + step);
        k = k + 1;
    }
    // Emission.
    let mut out: Vec<CPUInstruction> = Vec::new();
    let mut k: usize = 0;
    while k < n
        invariant
            k <= n,
            n == iv.len(),
            iv == instrucs@,
            off@.len() == n + 1,
            forall|j: int| 0 <= j <= n ==> off@[j] == offset_of(iv, j),
            out@.len() == offset_of(iv, k as int),
            lower_spec(iv) == out@ + lower_from(iv, k as int),
        decreases n - k,
    {
        let ghost before = out@;
        let start = off[k];
        proof {
            lemma_offset_mono(iv, k as int, iv.len() as int);
            lemma_offset_mono(iv, k + 1, iv.len() as int);
            assert(offset_of(iv, k + 1) == offset_of(iv, k as int) + len_of(iv[k as int]));
        }
        match &instrucs[k] {
            VMInstruction::PushConst(v) => {
                if *v >= 0 {
                    out.push(ai_val(*v as i32));
                    out.push(CPUInstruction::CInstruc(Comp::A, Dest::D, Jump::Null));
                } else {
                    out.push(ai_val(-1 - (*v as i32)));
                    out.push(CPUInstruction::CInstruc(Comp::NotA, Dest::D, Jump::Null));
                }
                emit_push_d(&mut out);
                proof {
                    assert(out@ =~= before + push_const_seq(*v));
                }
            },
            VMInstruction::Push(seg, idx) => {
                if seg_indirect_exec(*seg) {
                    out.push(ai_val(*idx as i32));
                    out.push(CPUInstruction::CInstruc(Comp::A, Dest::D, Jump::Null));
                    out.push(ai_val(seg_base_exec(*seg)));
                    out.push(CPUInstruction::CInstruc(Comp::DPulsM, Dest::A, Jump::Null));
                    out.push(CPUInstruction::CInstruc(Comp::M, Dest::D, Jump::Null));
                    emit_push_d(&mut out);
                } else {
                    out.push(ai_val(seg_base_exec(*seg) + (*idx as i32)));
                    out.push(CPUInstruction::CInstruc(Comp::M, Dest::D, Jump::Null));
                    emit_push_d(&mut out);
                }
                proof {
                    assert(out@ =~= before + push_seg_seq(*seg, *idx));
                }
            },
            VMInstruction::Pop(seg, idx) => {
                if seg_indirect_exec(*seg) {
                    out.push(ai_val(*idx as i32));
                    out.push(CPUInstruction::CInstruc(Comp::A, Dest::D, Jump::Null));
                    out.push(ai_val(seg_base_exec(*seg)));
                    out.push(CPUInstruction::CInstruc(Comp::DPulsM, Dest::D, Jump::Null));
                    out.push(ai_val(13));
                    out.push(CPUInstruction::CInstruc(Comp::D, Dest::M, Jump::Null));
                    out.push(ai_val(0));
                    out.push(CPUInstruction::CInstruc(Comp::MMinusOne, Dest::AM, Jump::Null));
                    out.push(CPUInstruction::CInstruc(Comp::M, Dest::D, Jump::Null));
                    out.push(ai_val(13));
                    out.push(CPUInstruction::CInstruc(Comp::M, Dest::A, Jump::Null));
                    out.push(CPUInstruction::CInstruc(Comp::D, Dest::M, Jump::Null));
                } else {
                    out.push(ai_val(0));
                    out.push(CPUInstruction::CInstruc(Comp::MMinusOne, Dest::AM, Jump::Null));
                    out.push(CPUInstruction::CInstruc(Comp::M, Dest::D, Jump::Null));
                    out.push(ai_val(seg_base_exec(*seg) + (*idx as i32)));
                    out.push(CPUInstruction::CInstruc(Comp::D, Dest::M, Jump::Null));
                }
                proof {
                    assert(out@ =~= before + pop_seg_seq(*seg, *idx));
                }
            },
            VMInstruction::Add => {
                emit_binop(&mut out, Comp::DPulsM);
            },
            VMInstruction::Sub => {
                emit_binop(&mut out, Comp::MMinusD);
            },
            VMInstruction::And => {
                emit_binop(&mut out, Comp::DAndM);
            },
            VMInstruction::Or => {
                emit_binop(&mut out, Comp::DOrM);
            },
            VMInstruction::Neg => {
                out.push(ai_val(0));
                out.push(CPUInstruction::CInstruc(Comp::MMinusOne, Dest::A, Jump::Null));
                out.push(CPUInstruction::CInstruc(Comp::MinusM, Dest::M, Jump::Null));
                proof {
                    assert(out@ =~= before + unop_seq(Comp::MinusM));
                }
            },
            VMInstruction::Not => {
                out.push(ai_val(0));
                out.push(CPUInstruction::CInstruc(Comp::MMinusOne, Dest::A, Jump::Null));
                out.push(CPUInstruction::CInstruc(Comp::NotM, Dest::M, Jump::Null));
                proof {
                    assert(out@ =~= before + unop_seq(Comp::NotM));
                }
            },
            VMInstruction::Eq => {
                emit_cmp(&mut out, start, Jump::JEQ);
            },
            VMInstruction::Gt => {
                emit_cmp(&mut out, start, Jump::JGT);
            },
            VMInstruction::Lt => {
                emit_cmp(&mut out, start, Jump::JLT);
            },
            VMInstruction::Label(_) => {
                proof {
                    assert(out@ =~= before + Seq::<CPUInstruction>::empty());
                }
            },
            VMInstruction::Goto(a) => {
                let t = target_exec(&off, *a, n, Ghost(iv));
                out.push(ai_usize(t));
                out.push(CPUInstruction::CInstruc(Comp::Zero, Dest::Null, Jump::JMP));
                proof {
                    assert(out@ =~= before + goto_seq(target_of(iv, *a as nat) as int));
                }
            },
            VMInstruction::IfGoto(a) => {
                let t = target_exec(&off, *a, n, Ghost(iv));
                out.push(ai_val(0));
                out.push(CPUInstruction::CInstruc(Comp::MMinusOne, Dest::AM, Jump::Null));
                out.push(CPUInstruction::CInstruc(Comp::M, Dest::D, Jump::Null));
                out.push(ai_usize(t));
                out.push(CPUInstruction::CInstruc(Comp::D, Dest::Null, Jump::JNE));
                proof {
                    assert(out@ =~= before + if_goto_seq(target_of(iv, *a as nat) as int));
                }
            },
            VMInstruction::Function(_, k2) => {
                let locals = *k2;
                let mut j: usize = 0;
                while j < locals
                    invariant
                        j <= locals,
                        out@ == before + function_seq(j as nat),
                    decreases locals - j,
                {
                    let ghost mid = out@;
                    out.push(ai_usize(0));
                    out.push(CPUInstruction::CInstruc(Comp::MPlusOne, Dest::M, Jump::Null));
                    out.push(CPUInstruction::CInstruc(Comp::MMinusOne, Dest::A, Jump::Null));
                    out.push(CPUInstruction::CInstruc(Comp::Zero, Dest::M, Jump::Null));
                    j = j + 1;
                    proof {
                        assert(mid + push_zero_seq() =~= out@);
                        assert(function_seq(j as nat) == function_seq((j - 1) as nat)
                            + push_zero_seq());
                        assert(before + (function_seq((j - 1) as nat) + push_zero_seq()) =~= (
                        before + function_seq((j - 1) as nat)) + push_zero_seq());
                    }
                }
            },
            VMInstruction::Call(a, n_arg) => {
                let t = target_exec(&off, *a, n, Ghost(iv));
                let ret = start + 47;
                out.push(ai_usize(ret));
                out.push(CPUInstruction::CInstruc(Comp::A, Dest::D, Jump::Null));
                emit_push_d(&mut out);
                emit_save_cell(&mut out, 1);
                emit_save_cell(&mut out, 2);
                emit_save_cell(&mut out, 3);
                emit_save_cell(&mut out, 4);
                let m = *n_arg % 0x10000;
                proof {
                    assert((5 + (*n_arg % 0x10000)) % 0x10000 == (5 + *n_arg as int) % 0x10000)
                        by (nonlinear_arith);
                    assert(wrap16(5 + m) == wrap16(5 + *n_arg as int));
                }
                out.push(ai_usize(5 + m));
                out.push(CPUInstruction::CInstruc(Comp::A, Dest::D, Jump::Null));
                out.push(ai_val(0));
                out.push(CPUInstruction::CInstruc(Comp::MMinusD, Dest::D, Jump::Null));
                out.push(ai_val(2));
                out.push(CPUInstruction::CInstruc(Comp::D, Dest::M, Jump::Null));
                out.push(ai_val(0));
                out.push(CPUInstruction::CInstruc(Comp::M, Dest::D, Jump::Null));
                out.push(ai_val(1));
                out.push(CPUInstruction::CInstruc(Comp::D, Dest::M, Jump::Null));
                out.push(ai_usize(t));
                out.push(CPUInstruction::CInstruc(Comp::Zero, Dest::Null, Jump::JMP));
                proof {
                    assert(out@ =~= before + call_seq(
                        start as int,
                        target_of(iv, *a as nat) as int,
                        *n_arg as int,
                    ));
                }
            },
            VMInstruction::Return => {
                emit_return(&mut out);
            },
        }
        proof {
            lemma_lower_one_len(iv, k as int);
            assert(out@ =~= before + lower_one(iv, k as int));
            assert(before + (lower_one(iv, k as int) + lower_from(iv, k + 1)) =~= (before
                + lower_one(iv, k as int)) + lower_from(iv, k + 1));
        }
        k = k + 1;
    }
    proof {
        assert(lower_from(iv, k as int) =~= Seq::<CPUInstruction>::empty());
        assert(out@ + Seq::<CPUInstruction>::empty() =~= out@);
    }
    out
}

/// The ROM address of a VM instruction index, from the offset table.
fn target_exec(off: &Vec<usize>, a: usize, n: usize, Ghost(iv): Ghost<Seq<VMInstruction>>) -> (r:
    usize)
    requires
        off@.len() == n + 1,
        iv.len() == n,
        forall|j: int| 0 <= j <= n ==> off@[j] == offset_of(iv, j),
    ensures
        r == target_of(iv, a as nat),
{
    if a <= n {
        off[a]
    } else {
        off[n]
    }
}

/// Emits a binary ALU block.
fn emit_binop(out: &mut Vec<CPUInstruction>, op: Comp)
    ensures
        final(out)@ == old(out)@ + binop_seq(op),
{
    out.push(ai_val(0));
    out.push(CPUInstruction::CInstruc(Comp::MMinusOne, Dest::AM, Jump::Null));
    out.push(CPUInstruction::CInstruc(Comp::M, Dest::D, Jump::Null));
    out.push(CPUInstruction::CInstruc(Comp::DMinusOne, Dest::A, Jump::Null));
    out.push(CPUInstruction::CInstruc(op, Dest::M, Jump::Null));
    proof {
        assert(out@ =~= old(out)@ + binop_seq(op));
    }
}

/// Emits a comparison block.
fn emit_cmp(out: &mut Vec<CPUInstruction>, start: usize, j: Jump)
    requires
        start + 15 <= usize::MAX,
    ensures
        final(out)@ == old(out)@ + cmp_seq(start as int, j),
{
    out.push(ai_val(0));
    out.push(CPUInstruction::CInstruc(Comp::MMinusOne, Dest::AM, Jump::Null));
    out.push(CPUInstruction::CInstruc(Comp::M, Dest::D, Jump::Null));
    out.push(CPUInstruction::CInstruc(Comp::DMinusOne, Dest::A, Jump::Null));
    out.push(CPUInstruction::CInstruc(Comp::MMinusD, Dest::D, Jump::Null));
    out.push(ai_usize(start + 12));
    out.push(CPUInstruction::CInstruc(Comp::D, Dest::Null, j));
    out.push(ai_val(0));
    out.push(CPUInstruction::CInstruc(Comp::MMinusOne, Dest::A, Jump::Null));
    out.push(CPUInstruction::CInstruc(Comp::Zero, Dest::M, Jump::Null));
    out.push(ai_usize(start + 15));
    out.push(CPUInstruction::CInstruc(Comp::Zero, Dest::Null, Jump::JMP));
    out.push(ai_val(0));
    out.push(CPUInstruction::CInstruc(Comp::MMinusOne, Dest::A, Jump::Null));
    out.push(CPUInstruction::CInstruc(Comp::MinusOne, Dest::M, Jump::Null));
    proof {
        assert(out@ =~= old(out)@ + cmp_seq(start as int, j));
    }
}

/// Emits the `return` block.
fn emit_return(out: &mut Vec<CPUInstruction>)
    ensures
        final(out)@ == old(out)@ + return_seq(),
{
    out.push(ai_val(1));
    out.push(CPUInstruction::CInstruc(Comp::M, Dest::D, Jump::Null));
    out.push(ai_val(13));
    out.push(CPUInstruction::CInstruc(Comp::D, Dest::M, Jump::Null));
    out.push(ai_val(5));
    out.push(CPUInstruction::CInstruc(Comp::DMinusA, Dest::A, Jump::Null));
    out.push(CPUInstruction::CInstruc(Comp::M, Dest::D, Jump::Null));
    out.push(ai_val(14));
    out.push(CPUInstruction::CInstruc(Comp::D, Dest::M, Jump::Null));
    out.push(ai_val(0));
    out.push(CPUInstruction::CInstruc(Comp::MMinusOne, Dest::AM, Jump::Null));
    out.push(CPUInstruction::CInstruc(Comp::M, Dest::D, Jump::Null));
    out.push(ai_val(2));
    out.push(CPUInstruction::CInstruc(Comp::M, Dest::A, Jump::Null));
    out.push(CPUInstruction::CInstruc(Comp::D, Dest::M, Jump::Null));
    out.push(ai_val(2));
    out.push(CPUInstruction::CInstruc(Comp::MPlusOne, Dest::D, Jump::Null));
    out.push(ai_val(0));
    out.push(CPUInstruction::CInstruc(Comp::D, Dest::M, Jump::Null));
    out.push(ai_val(13));
    out.push(CPUInstruction::CInstruc(Comp::MMinusOne, Dest::AM, Jump::Null));
    out.push(CPUInstruction::CInstruc(Comp::M, Dest::D, Jump::Null));
    out.push(ai_val(4));
    out.push(CPUInstruction::CInstruc(Comp::D, Dest::M, Jump::Null));
    out.push(ai_val(13));
    out.push(CPUInstruction::CInstruc(Comp::MMinusOne, Dest::AM, Jump::Null));
    out.push(CPUInstruction::CInstruc(Comp::M, Dest::D, Jump::Null));
    out.push(ai_val(3));
    out.push(CPUInstruction::CInstruc(Comp::D, Dest::M, Jump::Null));
    out.push(ai_val(13));
    out.push(CPUInstruction::CInstruc(Comp::MMinusOne, Dest::AM, Jump::Null));
    out.push(CPUInstruction::CInstruc(Comp::M, Dest::D, Jump::Null));
    out.push(ai_val(2));
    out.push(CPUInstruction::CInstruc(Comp::D, Dest::M, Jump::Null));
    out.push(ai_val(13));
    out.push(CPUInstruction::CInstruc(Comp::MMinusOne, Dest::AM, Jump::Null));
    out.push(CPUInstruction::CInstruc(Comp::M, Dest::D, Jump::Null));
    out.push(ai_val(1));
    out.push(CPUInstruction::CInstruc(Comp::D, Dest::M, Jump::Null));
    out.push(ai_val(14));
    out.push(CPUInstruction::CInstruc(Comp::M, Dest::A, Jump::Null));
    out.push(CPUInstruction::CInstruc(Comp::Zero, Dest::Null, Jump::JMP));
    proof {
        assert(out@ =~= old(out)@ + return_seq());
    }
}


/// The number of CPU instructions `vm2asm` will emit for the list, or
/// `None` when that count does not fit in `usize`.  A caller that cannot
/// prove `vm2asm`'s precondition can decide it with this.
#[verifier::loop_isolation(false)]
pub fn lowered_len(instrucs: &Vec<VMInstruction>) -> (r: Option<usize>)
    ensures
        match r {
            Some(n) => n as nat == offset_of(instrucs@, instrucs@.len() as int),
            None => offset_of(instrucs@, instrucs@.len() as int) > usize::MAX,
        },
{
    let n = instrucs.len();
    let mut total: usize = 0;
    let mut k: usize = 0;
    while k < n
        invariant
            k <= n,
            n == instrucs@.len(),
            total as nat == offset_of(instrucs@, k as int),
        decreases n - k,
    {
        proof {
            assert(offset_of(instrucs@, k + 1) == offset_of(instrucs@, k as int) + len_of(
                instrucs@[k as int],
            ));
            lemma_offset_mono(instrucs@, k + 1, instrucs@.len() as int);
        }
        let step: usize = match &instrucs[k] {
            VMInstruction::PushConst(_) => 7,
            VMInstruction::Push(seg, _) => if seg_indirect_exec(*seg) {
                10
            } else {
                7
            },
            VMInstruction::Pop(seg, _) => if seg_indirect_exec(*seg) {
                12
            } else {
                5
            },
            VMInstruction::Add => 5,
            VMInstruction::Sub => 5,
            VMInstruction::And => 5,
            VMInstruction::Or => 5,
            VMInstruction::Neg => 3,
            VMInstruction::Not => 3,
            VMInstruction::Eq => 15,
            VMInstruction::Gt => 15,
            VMInstruction::Lt => 15,
            VMInstruction::Label(_) => 0,
            VMInstruction::Goto(_) => 2,
            VMInstruction::IfGoto(_) => 5,
            VMInstruction::Function(_, k2) => {
                match 4usize.checked_mul(*k2) {
                    Some(v) => v,
                    None => {
                        return None;
                    },
                }
            },
            VMInstruction::Call(_, _) => 47,
            VMInstruction::Return => 42,
        };
        total = match total.checked_add(step) {
            Some(v) => v,
            None => {
                return None;
            },
        };
        k = k + 1;
    }
    Some(total)
}

// ---------------------------------------------------------------------------
// Stack discipline of the lowered code
// ---------------------------------------------------------------------------

/// The mathematical value a binary VM operation leaves on the stack.
pub open spec fn binop_val(op: VMInstruction, x: i16, y: i16) -> i16 {
    match op {
        VMInstruction::Add => wrap16(x + y),
        VMInstruction::Sub => wrap16(x - y),
        VMInstruction::And => x & y,
        VMInstruction::Or => x | y,
        _ => 0,
    }
}

/// The `comp` code a binary VM operation lowers through.
pub open spec fn binop_comp(op: VMInstruction) -> Comp {
    match op {
        VMInstruction::Add => Comp::DPulsM,
        VMInstruction::Sub => Comp::MMinusD,
        VMInstruction::And => Comp::DAndM,
        VMInstruction::Or => Comp::DOrM,
        _ => Comp::Zero,
    }
}

/// Executing a `push constant` block pushes the constant: the cell under
/// `SP` receives it and `SP` moves up one.
pub proof fn lemma_exec_push_const(s: CpuState, k: i16)
    requires
        s.ram.len() == 0x10000,
        s.pc + 7 <= s.rom.len(),
        forall|j: int| 0 <= j < 7 ==> s.rom[s.pc + j] == #[trigger] push_const_seq(k)[j],
        1 <= s.ram[0] < 0x7FFE,
    ensures
        run_steps(s, 7).d == k,
        run_steps(s, 7).a == 0,
        run_steps(s, 7).pc == s.pc + 7,
        run_steps(s, 7).rom == s.rom,
        run_steps(s, 7).ram == s.ram.update(s.ram[0] as int, k).update(
            0,
            (s.ram[0] + 1) as i16,
        ),
{
    let sp = s.ram[0];
    assert(s.rom[s.pc as int + 0] == push_const_seq(k)[0]);
    assert(s.rom[s.pc as int + 1] == push_const_seq(k)[1]);
    assert(s.rom[s.pc as int + 2] == push_const_seq(k)[2]);
    assert(s.rom[s.pc as int + 3] == push_const_seq(k)[3]);
    assert(s.rom[s.pc as int + 4] == push_const_seq(k)[4]);
    assert(s.rom[s.pc as int + 5] == push_const_seq(k)[5]);
    assert(s.rom[s.pc as int + 6] == push_const_seq(k)[6]);
    let s1 = step_spec(s);
    assert(run_steps(s, 7) == run_steps(s1, 6));
    if k >= 0 {
        assert(push_const_seq(k)[0] == ai(k as int));
        assert(wrap16(k as int) == k);
    } else {
        assert(push_const_seq(k)[0] == ai(-1 - k));
        assert(wrap16(-1 - k) == (-1 - k) as i16);
    }
    assert(s1.a == (if k >= 0 { k } else { (-1 - k) as i16 }) && s1.d == s.d && s1.ram == s.ram
        && s1.pc == s.pc + 1 && s1.rom == s.rom);
    let s2 = step_spec(s1);
    assert(run_steps(s1, 6) == run_steps(s2, 5));
    if k >= 0 {
        assert(push_const_seq(k)[1] == ci(Comp::A, Dest::D));
    } else {
        assert(push_const_seq(k)[1] == ci(Comp::NotA, Dest::D));
        assert(not16((-1 - k) as i16) == k);
    }
    assert(s2.d == k && s2.a == s1.a && s2.ram == s.ram && s2.pc == s.pc + 2 && s2.rom == s.rom);
    let s3 = step_spec(s2);
    assert(run_steps(s2, 5) == run_steps(s3, 4));
    assert(push_const_seq(k)[2] == ai(0));
    assert(wrap16(0) == 0i16);
    assert(s3.a == 0 && s3.d == k && s3.ram == s.ram && s3.pc == s.pc + 3 && s3.rom == s.rom);
    let s4 = step_spec(s3);
    assert(run_steps(s3, 4) == run_steps(s4, 3));
    assert(push_const_seq(k)[3] == ci(Comp::M, Dest::A));
    assert(addr_of(0) == 0);
    assert(s4.a == sp && s4.d == k && s4.ram == s.ram && s4.pc == s.pc + 4 && s4.rom == s.rom);
    let s5 = step_spec(s4);
    assert(run_steps(s4, 3) == run_steps(s5, 2));
    assert(push_const_seq(k)[4] == ci(Comp::D, Dest::M));
    assert(addr_of(sp) == sp as int);
    assert(s5.a == sp && s5.d == k && s5.ram == s.ram.update(sp as int, k) && s5.pc == s.pc + 5
        && s5.rom == s.rom);
    let s6 = step_spec(s5);
    assert(run_steps(s5, 2) == run_steps(s6, 1));
    assert(push_const_seq(k)[5] == ai(0));
    assert(s6.a == 0 && s6.d == k && s6.ram == s5.ram && s6.pc == s.pc + 6 && s6.rom == s.rom);
    let s7 = step_spec(s6);
    assert(run_steps(s6, 1) == run_steps(s7, 0));
    assert(push_const_seq(k)[6] == ci(Comp::MPlusOne, Dest::M));
    assert(s6.ram[0] == sp);
    assert(wrap16(sp + 1) == (sp + 1) as i16);
    assert(s7.d == k && s7.a == 0 && s7.pc == s.pc + 7 && s7.rom == s.rom);
    assert(s7.ram == s.ram.update(sp as int, k).update(0, (sp + 1) as i16));
}

/// Executing a binary ALU block pops the two topmost values and pushes the
/// operation's value over them.
pub proof fn lemma_exec_binop(s: CpuState, op: VMInstruction)
    requires
        op == VMInstruction::Add || op == VMInstruction::Sub || op == VMInstruction::And || op
            == VMInstruction::Or,
        s.ram.len() == 0x10000,
        s.pc + 5 <= s.rom.len(),
        forall|j: int|
            0 <= j < 5 ==> s.rom[s.pc + j] == #[trigger] binop_seq(binop_comp(op))[j],
        3 <= s.ram[0] < 0x7FFE,
    ensures
        run_steps(s, 5).pc == s.pc + 5,
        run_steps(s, 5).rom == s.rom,
        run_steps(s, 5).ram == s.ram.update(0, (s.ram[0] - 1) as i16).update(
            s.ram[0] - 2,
            binop_val(op, s.ram[s.ram[0] - 2], s.ram[s.ram[0] - 1]),
        ),
{
    let sp = s.ram[0];
    let x = s.ram[sp - 2];
    let y = s.ram[sp - 1];
    let opc = binop_comp(op);
    assert(s.rom[s.pc as int + 0] == binop_seq(opc)[0]);
    assert(s.rom[s.pc as int + 1] == binop_seq(opc)[1]);
    assert(s.rom[s.pc as int + 2] == binop_seq(opc)[2]);
    assert(s.rom[s.pc as int + 3] == binop_seq(opc)[3]);
    assert(s.rom[s.pc as int + 4] == binop_seq(opc)[4]);
    let s1 = step_spec(s);
    assert(run_steps(s, 5) == run_steps(s1, 4));
    assert(binop_seq(opc)[0] == ai(0));
    assert(wrap16(0) == 0i16);
    assert(s1.a == 0 && s1.d == s.d && s1.ram == s.ram && s1.pc == s.pc + 1 && s1.rom == s.rom);
    let s2 = step_spec(s1);
    assert(run_steps(s1, 4) == run_steps(s2, 3));
    assert(binop_seq(opc)[1] == ci(Comp::MMinusOne, Dest::AM));
    assert(addr_of(0) == 0);
    assert(wrap16(sp - 1) == (sp - 1) as i16);
    assert(s2.a == (sp - 1) as i16 && s2.d == s.d && s2.ram == s.ram.update(0, (sp - 1) as i16)
        && s2.pc == s.pc + 2 && s2.rom == s.rom);
    let s3 = step_spec(s2);
    assert(run_steps(s2, 3) == run_steps(s3, 2));
    assert(binop_seq(opc)[2] == ci(Comp::M, Dest::D));
    assert(addr_of((sp - 1) as i16) == sp - 1);
    assert(s2.ram[sp - 1] == y);
    assert(s3.d == y && s3.a == (sp - 1) as i16 && s3.ram == s2.ram && s3.pc == s.pc + 3
        && s3.rom == s.rom);
    let s4 = step_spec(s3);
    assert(run_steps(s3, 2) == run_steps(s4, 1));
    assert(binop_seq(opc)[3] == ci(Comp::DMinusOne, Dest::A));
    assert(alu_spec(Comp::DMinusOne, s3.d, s3.a, s3.ram[addr_of(s3.a)]) == wrap16(sp - 2));
    assert(wrap16(sp - 2) == (sp - 2) as i16);
    assert(s4.a == (sp - 2) as i16 && s4.d == y && s4.ram == s2.ram && s4.pc == s.pc + 4
        && s4.rom == s.rom);
    let s5 = step_spec(s4);
    assert(run_steps(s4, 1) == run_steps(s5, 0));
    assert(binop_seq(opc)[4] == ci(opc, Dest::M));
    assert(addr_of((sp - 2) as i16) == sp - 2);
    assert(s4.ram[sp - 2] == x);
    if op == VMInstruction::And {
        assert(x & y == y & x) by (bit_vector);
    }
    if op == VMInstruction::Or {
        assert(x | y == y | x) by (bit_vector);
    }
    assert(alu_spec(opc, y, (sp - 2) as i16, x) == binop_val(op, x, y));
    assert(s5.pc == s.pc + 5 && s5.rom == s.rom);
    assert(s5.ram == s.ram.update(0, (sp - 1) as i16).update(sp - 2, binop_val(op, x, y)));
}

/// Executing a direct `pop` block moves the top of the stack into the
/// addressed cell and rolls `SP` back one.
pub proof fn lemma_exec_pop_direct(s: CpuState, seg: Segment, idx: i16)
    requires
        !seg_indirect(seg),
        s.ram.len() == 0x10000,
        s.pc + 5 <= s.rom.len(),
        forall|j: int| 0 <= j < 5 ==> s.rom[s.pc + j] == #[trigger] pop_seg_seq(seg, idx)[j],
        2 <= s.ram[0] < 0x7FFE,
        0 <= idx,
        seg_base(seg) + idx < 0x7FFF,
    ensures
        run_steps(s, 5).pc == s.pc + 5,
        run_steps(s, 5).rom == s.rom,
        run_steps(s, 5).ram == s.ram.update(0, (s.ram[0] - 1) as i16).update(
            seg_base(seg) + idx,
            s.ram[s.ram[0] - 1],
        ),
{
    let sp = s.ram[0];
    let y = s.ram[sp - 1];
    let cell = seg_base(seg) + idx;
    assert(s.rom[s.pc as int + 0] == pop_seg_seq(seg, idx)[0]);
    assert(s.rom[s.pc as int + 1] == pop_seg_seq(seg, idx)[1]);
    assert(s.rom[s.pc as int + 2] == pop_seg_seq(seg, idx)[2]);
    assert(s.rom[s.pc as int + 3] == pop_seg_seq(seg, idx)[3]);
    assert(s.rom[s.pc as int + 4] == pop_seg_seq(seg, idx)[4]);
    let s1 = step_spec(s);
    assert(run_steps(s, 5) == run_steps(s1, 4));
    assert(pop_seg_seq(seg, idx)[0] == ai(0));
    assert(wrap16(0) == 0i16);
    assert(s1.a == 0 && s1.d == s.d && s1.ram == s.ram && s1.pc == s.pc + 1 && s1.rom == s.rom);
    let s2 = step_spec(s1);
    assert(run_steps(s1, 4) == run_steps(s2, 3));
    assert(pop_seg_seq(seg, idx)[1] == ci(Comp::MMinusOne, Dest::AM));
    assert(addr_of(0) == 0);
    assert(wrap16(sp - 1) == (sp - 1) as i16);
    assert(s2.a == (sp - 1) as i16 && s2.d == s.d && s2.ram == s.ram.update(0, (sp - 1) as i16)
        && s2.pc == s.pc + 2 && s2.rom == s.rom);
    let s3 = step_spec(s2);
    assert(run_steps(s2, 3) == run_steps(s3, 2));
    assert(pop_seg_seq(seg, idx)[2] == ci(Comp::M, Dest::D));
    assert(addr_of((sp - 1) as i16) == sp - 1);
    assert(s2.ram[sp - 1] == y);
    assert(s3.d == y && s3.ram == s2.ram && s3.pc == s.pc + 3 && s3.rom == s.rom);
    let s4 = step_spec(s3);
    assert(run_steps(s3, 2) == run_steps(s4, 1));
    assert(pop_seg_seq(seg, idx)[3] == ai(cell));
    assert(wrap16(cell) == cell as i16);
    assert(s4.a == cell as i16 && s4.d == y && s4.ram == s2.ram && s4.pc == s.pc + 4 && s4.rom
        == s.rom);
    let s5 = step_spec(s4);
    assert(run_steps(s4, 1) == run_steps(s5, 0));
    assert(pop_seg_seq(seg, idx)[4] == ci(Comp::D, Dest::M));
    assert(addr_of(cell as i16) == cell);
    assert(s5.pc == s.pc + 5 && s5.rom == s.rom);
    assert(s5.ram == s.ram.update(0, (sp - 1) as i16).update(cell, y));
}

/// Stack discipline of the lowering: running the lowered form of
/// `push constant a; push constant b; <op>; pop static 0` leaves the
/// operation's value in RAM 16 and the stack pointer where it started.
pub proof fn lemma_stack_discipline(s: CpuState, a: i16, b: i16, op: VMInstruction)
    requires
        op == VMInstruction::Add || op == VMInstruction::Sub || op == VMInstruction::And || op
            == VMInstruction::Or,
        s.rom == lower_spec(
            seq![
                VMInstruction::PushConst(a),
                VMInstruction::PushConst(b),
                op,
                VMInstruction::Pop(Segment::Static, 0),
            ],
        ),
        s.pc == 0,
        s.ram.len() == 0x10000,
        s.ram[0] == 256,
    ensures
        run_steps(s, 24).ram[16] == binop_val(op, a, b),
        run_steps(s, 24).ram[0] == 256,
{
    let prog = seq![
        VMInstruction::PushConst(a),
        VMInstruction::PushConst(b),
        op,
        VMInstruction::Pop(Segment::Static, 0),
    ];
    let opc = binop_comp(op);
    assert(lower_one(prog, 0) == push_const_seq(a));
    assert(lower_one(prog, 1) == push_const_seq(b));
    assert(lower_one(prog, 2) == binop_seq(opc));
    assert(lower_one(prog, 3) == pop_seg_seq(Segment::Static, 0));
    assert(lower_from(prog, 4) == Seq::<CPUInstruction>::empty());
    assert(lower_from(prog, 3) == lower_one(prog, 3) + lower_from(prog, 4));
    assert(lower_from(prog, 2) == lower_one(prog, 2) + lower_from(prog, 3));
    assert(lower_from(prog, 1) == lower_one(prog, 1) + lower_from(prog, 2));
    assert(lower_from(prog, 0) == lower_one(prog, 0) + lower_from(prog, 1));
    assert(s.rom =~= push_const_seq(a) + (push_const_seq(b) + (binop_seq(opc) + (pop_seg_seq(
        Segment::Static,
        0,
    ) + Seq::<CPUInstruction>::empty()))));
    assert(s.rom.len() == 24);
    assert(forall|j: int| 0 <= j < 7 ==> s.rom[0 + j] == #[trigger] push_const_seq(a)[j]);
    lemma_exec_push_const(s, a);
    let t1 = run_steps(s, 7);
    assert(t1.ram[0] == 257);
    assert(forall|j: int| 0 <= j < 7 ==> t1.rom[t1.pc + j] == #[trigger] push_const_seq(b)[j]);
    lemma_exec_push_const(t1, b);
    let t2 = run_steps(t1, 7);
    lemma_run_steps_add(s, 7, 7);
    assert(t2 == run_steps(s, 14));
    assert(t2.ram[0] == 258);
    assert(t2.ram[256] == a);
    assert(t2.ram[257] == b);
    assert(forall|j: int| 0 <= j < 5 ==> t2.rom[t2.pc + j] == #[trigger] binop_seq(opc)[j]);
    lemma_exec_binop(t2, op);
    let t3 = run_steps(t2, 5);
    lemma_run_steps_add(s, 14, 5);
    assert(t3 == run_steps(s, 19));
    assert(t3.ram[0] == 257);
    assert(t3.ram[256] == binop_val(op, a, b));
    assert(forall|j: int|
        0 <= j < 5 ==> t3.rom[t3.pc + j] == #[trigger] pop_seg_seq(Segment::Static, 0)[j]);
    lemma_exec_pop_direct(t3, Segment::Static, 0);
    let t4 = run_steps(t3, 5);
    lemma_run_steps_add(s, 19, 5);
    assert(t4 == run_steps(s, 24));
    assert(t4.ram[16] == binop_val(op, a, b));
    assert(t4.ram[0] == 256);
}

/// The mathematical value a unary VM operation leaves on the stack.
pub open spec fn unop_val(op: VMInstruction, x: i16) -> i16 {
    match op {
        VMInstruction::Neg => neg16(x),
        VMInstruction::Not => not16(x),
        _ => 0,
    }
}

/// The `comp` code a unary VM operation lowers through.
pub open spec fn unop_comp(op: VMInstruction) -> Comp {
    match op {
        VMInstruction::Neg => Comp::MinusM,
        VMInstruction::Not => Comp::NotM,
        _ => Comp::Zero,
    }
}

/// Executing a unary ALU block rewrites the top of the stack in place.
pub proof fn lemma_exec_unop(s: CpuState, op: VMInstruction)
    requires
        op == VMInstruction::Neg || op == VMInstruction::Not,
        s.ram.len() == 0x10000,
        s.pc + 3 <= s.rom.len(),
        forall|j: int| 0 <= j < 3 ==> s.rom[s.pc + j] == #[trigger] unop_seq(unop_comp(op))[j],
        2 <= s.ram[0] < 0x7FFE,
    ensures
        run_steps(s, 3).pc == s.pc + 3,
        run_steps(s, 3).rom == s.rom,
        run_steps(s, 3).ram == s.ram.update(
            s.ram[0] - 1,
            unop_val(op, s.ram[s.ram[0] - 1]),
        ),
{
    let sp = s.ram[0];
    let x = s.ram[sp - 1];
    let opc = unop_comp(op);
    assert(s.rom[s.pc as int + 0] == unop_seq(opc)[0]);
    assert(s.rom[s.pc as int + 1] == unop_seq(opc)[1]);
    assert(s.rom[s.pc as int + 2] == unop_seq(opc)[2]);
    let s1 = step_spec(s);
    assert(run_steps(s, 3) == run_steps(s1, 2));
    assert(unop_seq(opc)[0] == ai(0));
    assert(wrap16(0) == 0i16);
    assert(s1.a == 0 && s1.d == s.d && s1.ram == s.ram && s1.pc == s.pc + 1 && s1.rom == s.rom);
    let s2 = step_spec(s1);
    assert(run_steps(s1, 2) == run_steps(s2, 1));
    assert(unop_seq(opc)[1] == ci(Comp::MMinusOne, Dest::A));
    assert(addr_of(0) == 0);
    assert(wrap16(sp - 1) == (sp - 1) as i16);
    assert(s2.a == (sp - 1) as i16 && s2.ram == s.ram && s2.pc == s.pc + 2 && s2.rom == s.rom);
    let s3 = step_spec(s2);
    assert(run_steps(s2, 1) == run_steps(s3, 0));
    assert(unop_seq(opc)[2] == ci(opc, Dest::M));
    assert(addr_of((sp - 1) as i16) == sp - 1);
    assert(s2.ram[sp - 1] == x);
    assert(alu_spec(opc, s2.d, s2.a, x) == unop_val(op, x));
    assert(s3.pc == s.pc + 3 && s3.rom == s.rom);
    assert(s3.ram == s.ram.update(sp - 1, unop_val(op, x)));
}

/// Stack discipline of the unary operations: running the lowered form of
/// `push constant a; <op>; pop static 0` leaves the operation's value in
/// RAM 16 and the stack pointer where it started.
pub proof fn lemma_stack_discipline_unary(s: CpuState, a: i16, op: VMInstruction)
    requires
        op == VMInstruction::Neg || op == VMInstruction::Not,
        s.rom == lower_spec(
            seq![
                VMInstruction::PushConst(a),
                op,
                VMInstruction::Pop(Segment::Static, 0),
            ],
        ),
        s.pc == 0,
        s.ram.len() == 0x10000,
        s.ram[0] == 256,
    ensures
        run_steps(s, 15).ram[16] == unop_val(op, a),
        run_steps(s, 15).ram[0] == 256,
{
    let prog = seq![VMInstruction::PushConst(a), op, VMInstruction::Pop(Segment::Static, 0)];
    let opc = unop_comp(op);
    assert(lower_one(prog, 0) == push_const_seq(a));
    assert(lower_one(prog, 1) == unop_seq(opc));
    assert(lower_one(prog, 2) == pop_seg_seq(Segment::Static, 0));
    assert(lower_from(prog, 3) == Seq::<CPUInstruction>::empty());
    assert(lower_from(prog, 2) == lower_one(prog, 2) + lower_from(prog, 3));
    assert(lower_from(prog, 1) == lower_one(prog, 1) + lower_from(prog, 2));
    assert(lower_from(prog, 0) == lower_one(prog, 0) + lower_from(prog, 1));
    assert(s.rom =~= push_const_seq(a) + (unop_seq(opc) + (pop_seg_seq(Segment::Static, 0)
        + Seq::<CPUInstruction>::empty())));
    assert(s.rom.len() == 15);
    assert(forall|j: int| 0 <= j < 7 ==> s.rom[0 + j] == #[trigger] push_const_seq(a)[j]);
    lemma_exec_push_const(s, a);
    let t1 = run_steps(s, 7);
    assert(t1.ram[0] == 257);
    assert(t1.ram[256] == a);
    assert(forall|j: int| 0 <= j < 3 ==> t1.rom[t1.pc + j] == #[trigger] unop_seq(opc)[j]);
    lemma_exec_unop(t1, op);
    let t2 = run_steps(t1, 3);
    lemma_run_steps_add(s, 7, 3);
    assert(t2 == run_steps(s, 10));
    assert(t2.ram[0] == 257);
    assert(t2.ram[256] == unop_val(op, a));
    assert(forall|j: int|
        0 <= j < 5 ==> t2.rom[t2.pc + j] == #[trigger] pop_seg_seq(Segment::Static, 0)[j]);
    lemma_exec_pop_direct(t2, Segment::Static, 0);
    let t3 = run_steps(t2, 5);
    lemma_run_steps_add(s, 10, 5);
    assert(t3 == run_steps(s, 15));
    assert(t3.ram[16] == unop_val(op, a));
    assert(t3.ram[0] == 256);
}

/// The branch condition a comparison lowers through.
pub open spec fn cmp_jump(op: VMInstruction) -> Jump {
    match op {
        VMInstruction::Eq => Jump::JEQ,
        VMInstruction::Gt => Jump::JGT,
        _ => Jump::JLT,
    }
}

/// Whether a comparison holds of its operands, the earlier push on the
/// left.
pub open spec fn cmp_holds(op: VMInstruction, x: i16, y: i16) -> bool {
    match op {
        VMInstruction::Eq => x == y,
        VMInstruction::Gt => x > y,
        _ => x < y,
    }
}

/// How many steps a comparison block takes: a taken branch skips the
/// false-case writes.
pub open spec fn cmp_steps(cond: bool) -> nat {
    if cond {
        10
    } else {
        12
    }
}

/// A stopped machine stays put however long it is stepped.
pub proof fn lemma_run_halted(s: CpuState, n: nat)
    requires
        s.pc >= s.rom.len(),
    ensures
        run_steps(s, n) == s,
    decreases n,
{
    if n > 0 {
        lemma_run_halted(s, (n - 1) as nat);
    }
}

/// Executing a comparison block pops the two topmost values and pushes
/// `-1` when the comparison holds and `0` when it does not.  For `gt` and
/// `lt` the difference of the operands must fit in 16 bits; a larger
/// difference wraps inside the ALU and flips the branch.
pub proof fn lemma_exec_cmp(s: CpuState, op: VMInstruction)
    requires
        op == VMInstruction::Eq || op == VMInstruction::Gt || op == VMInstruction::Lt,
        s.ram.len() == 0x10000,
        s.pc + 15 <= s.rom.len(),
        s.pc + 15 < 0x8000,
        forall|j: int|
            0 <= j < 15 ==> s.rom[s.pc + j] == #[trigger] cmp_seq(
                s.pc as int,
                cmp_jump(op),
            )[j],
        3 <= s.ram[0] < 0x7FFE,
        -0x8000 <= s.ram[s.ram[0] - 2] - s.ram[s.ram[0] - 1] < 0x8000,
    ensures
        ({
            let cond = cmp_holds(op, s.ram[s.ram[0] - 2], s.ram[s.ram[0] - 1]);
            let t = run_steps(s, cmp_steps(cond));
            t.pc == s.pc + 15 && t.rom == s.rom && t.ram == s.ram.update(
                0,
                (s.ram[0] - 1) as i16,
            ).update(
                s.ram[0] - 2,
                if cond {
                    -1 as i16
                } else {
                    0 as i16
                },
            )
        }),
{
    let sp = s.ram[0];
    let x = s.ram[sp - 2];
    let y = s.ram[sp - 1];
    let start = s.pc as int;
    let j = cmp_jump(op);
    let cond = cmp_holds(op, x, y);
    assert(s.rom[start + 0] == cmp_seq(start, j)[0]);
    assert(s.rom[start + 1] == cmp_seq(start, j)[1]);
    assert(s.rom[start + 2] == cmp_seq(start, j)[2]);
    assert(s.rom[start + 3] == cmp_seq(start, j)[3]);
    assert(s.rom[start + 4] == cmp_seq(start, j)[4]);
    assert(s.rom[start + 5] == cmp_seq(start, j)[5]);
    assert(s.rom[start + 6] == cmp_seq(start, j)[6]);
    assert(s.rom[start + 7] == cmp_seq(start, j)[7]);
    assert(s.rom[start + 8] == cmp_seq(start, j)[8]);
    assert(s.rom[start + 9] == cmp_seq(start, j)[9]);
    assert(s.rom[start + 10] == cmp_seq(start, j)[10]);
    assert(s.rom[start + 11] == cmp_seq(start, j)[11]);
    assert(s.rom[start + 12] == cmp_seq(start, j)[12]);
    assert(s.rom[start + 13] == cmp_seq(start, j)[13]);
    assert(s.rom[start + 14] == cmp_seq(start, j)[14]);
    let s1 = step_spec(s);
    assert(run_steps(s, 1) == run_steps(s1, 0));
    assert(cmp_seq(start, j)[0] == ai(0));
    assert(wrap16(0) == 0i16);
    assert(s1.a == 0 && s1.d == s.d && s1.ram == s.ram && s1.pc == s.pc + 1 && s1.rom == s.rom);
    let s2 = step_spec(s1);
    assert(cmp_seq(start, j)[1] == ci(Comp::MMinusOne, Dest::AM));
    assert(addr_of(0) == 0);
    assert(wrap16(sp - 1) == (sp - 1) as i16);
    assert(s2.a == (sp - 1) as i16 && s2.d == s.d && s2.ram == s.ram.update(0, (sp - 1) as i16)
        && s2.pc == s.pc + 2 && s2.rom == s.rom);
    let s3 = step_spec(s2);
    assert(cmp_seq(start, j)[2] == ci(Comp::M, Dest::D));
    assert(addr_of((sp - 1) as i16) == sp - 1);
    assert(s2.ram[sp - 1] == y);
    assert(s3.d == y && s3.a == (sp - 1) as i16 && s3.ram == s2.ram && s3.pc == s.pc + 3
        && s3.rom == s.rom);
    let s4 = step_spec(s3);
    assert(cmp_seq(start, j)[3] == ci(Comp::DMinusOne, Dest::A));
    assert(alu_spec(Comp::DMinusOne, s3.d, s3.a, s3.ram[addr_of(s3.a)]) == wrap16(sp - 2));
    assert(wrap16(sp - 2) == (sp - 2) as i16);
    assert(s4.a == (sp - 2) as i16 && s4.d == y && s4.ram == s2.ram && s4.pc == s.pc + 4
        && s4.rom == s.rom);
    let s5 = step_spec(s4);
    assert(cmp_seq(start, j)[4] == ci(Comp::MMinusD, Dest::D));
    assert(addr_of((sp - 2) as i16) == sp - 2);
    assert(s4.ram[sp - 2] == x);
    let dif = wrap16(x - y);
    assert(dif == (x - y) as i16);
    assert(s5.d == dif && s5.a == (sp - 2) as i16 && s5.ram == s2.ram && s5.pc == s.pc + 5
        && s5.rom == s.rom);
    let s6 = step_spec(s5);
    assert(cmp_seq(start, j)[5] == ai(start + 12));
    assert(wrap16(start + 12) == (start + 12) as i16);
    assert(s6.a == (start + 12) as i16 && s6.d == dif && s6.ram == s2.ram && s6.pc == s.pc + 6
        && s6.rom == s.rom);
    let s7 = step_spec(s6);
    assert(cmp_seq(start, j)[6] == CPUInstruction::CInstruc(Comp::D, Dest::Null, j));
    assert(jump_cond_spec(j, dif) == cond);
    assert(s7.d == dif && s7.ram == s2.ram && s7.rom == s.rom);
    if cond {
        assert(addr_of((start + 12) as i16) == start + 12);
        assert(s7.pc == start + 12);
        let s8 = step_spec(s7);
        assert(cmp_seq(start, j)[12] == ai(0));
        assert(s8.a == 0 && s8.ram == s2.ram && s8.pc == start + 13 && s8.rom == s.rom);
        let s9 = step_spec(s8);
        assert(cmp_seq(start, j)[13] == ci(Comp::MMinusOne, Dest::A));
        assert(s8.ram[0] == (sp - 1) as i16);
        assert(wrap16(sp - 2) == (sp - 2) as i16);
        assert(s9.a == (sp - 2) as i16 && s9.ram == s2.ram && s9.pc == start + 14 && s9.rom
            == s.rom);
        let s10 = step_spec(s9);
        assert(cmp_seq(start, j)[14] == ci(Comp::MinusOne, Dest::M));
        assert(addr_of((sp - 2) as i16) == sp - 2);
        assert(s10.pc == start + 15 && s10.rom == s.rom);
        assert(s10.ram == s.ram.update(0, (sp - 1) as i16).update(sp - 2, -1 as i16));
        assert(run_steps(s, 10) == run_steps(s1, 9));
        assert(run_steps(s1, 9) == run_steps(s2, 8));
        assert(run_steps(s2, 8) == run_steps(s3, 7));
        assert(run_steps(s3, 7) == run_steps(s4, 6));
        assert(run_steps(s4, 6) == run_steps(s5, 5));
        assert(run_steps(s5, 5) == run_steps(s6, 4));
        assert(run_steps(s6, 4) == run_steps(s7, 3));
        assert(run_steps(s7, 3) == run_steps(s8, 2));
        assert(run_steps(s8, 2) == run_steps(s9, 1));
        assert(run_steps(s9, 1) == run_steps(s10, 0));
        assert(run_steps(s, 10) == s10);
    } else {
        assert(s7.pc == start + 7);
        let s8 = step_spec(s7);
        assert(cmp_seq(start, j)[7] == ai(0));
        assert(s8.a == 0 && s8.ram == s2.ram && s8.pc == start + 8 && s8.rom == s.rom);
        let s9 = step_spec(s8);
        assert(cmp_seq(start, j)[8] == ci(Comp::MMinusOne, Dest::A));
        assert(s8.ram[0] == (sp - 1) as i16);
        assert(wrap16(sp - 2) == (sp - 2) as i16);
        assert(s9.a == (sp - 2) as i16 && s9.ram == s2.ram && s9.pc == start + 9 && s9.rom
            == s.rom);
        let s10 = step_spec(s9);
        assert(cmp_seq(start, j)[9] == ci(Comp::Zero, Dest::M));
        assert(addr_of((sp - 2) as i16) == sp - 2);
        assert(s10.ram == s.ram.update(0, (sp - 1) as i16).update(sp - 2, 0 as i16) && s10.pc
            == start + 10 && s10.rom == s.rom);
        let s11 = step_spec(s10);
        assert(cmp_seq(start, j)[10] == ai(start + 15));
        assert(wrap16(start + 15) == (start + 15) as i16);
        assert(s11.a == (start + 15) as i16 && s11.ram == s10.ram && s11.pc == start + 11
            && s11.rom == s.rom);
        let s12 = step_spec(s11);
        assert(cmp_seq(start, j)[11] == CPUInstruction::CInstruc(
            Comp::Zero,
            Dest::Null,
            Jump::JMP,
        ));
        assert(addr_of((start + 15) as i16) == start + 15);
        assert(s12.pc == start + 15 && s12.rom == s.rom && s12.ram == s10.ram);
        assert(run_steps(s, 12) == run_steps(s1, 11));
        assert(run_steps(s1, 11) == run_steps(s2, 10));
        assert(run_steps(s2, 10) == run_steps(s3, 9));
        assert(run_steps(s3, 9) == run_steps(s4, 8));
        assert(run_steps(s4, 8) == run_steps(s5, 7));
        assert(run_steps(s5, 7) == run_steps(s6, 6));
        assert(run_steps(s6, 6) == run_steps(s7, 5));
        assert(run_steps(s7, 5) == run_steps(s8, 4));
        assert(run_steps(s8, 4) == run_steps(s9, 3));
        assert(run_steps(s9, 3) == run_steps(s10, 2));
        assert(run_steps(s10, 2) == run_steps(s11, 1));
        assert(run_steps(s11, 1) == run_steps(s12, 0));
        assert(run_steps(s, 12) == s12);
    }
}

/// Stack discipline of the comparisons: running the lowered form of
/// `push constant a; push constant b; <cmp>; pop static 0` leaves `-1` in
/// RAM 16 when the comparison holds and `0` when it does not, with the
/// stack pointer where it started.  For `gt` and `lt` the difference of
/// the two constants must fit in 16 bits.
pub proof fn lemma_stack_discipline_cmp(s: CpuState, a: i16, b: i16, op: VMInstruction)
    requires
        op == VMInstruction::Eq || op == VMInstruction::Gt || op == VMInstruction::Lt,
        -0x8000 <= a - b < 0x8000,
        s.rom == lower_spec(
            seq![
                VMInstruction::PushConst(a),
                VMInstruction::PushConst(b),
                op,
                VMInstruction::Pop(Segment::Static, 0),
            ],
        ),
        s.pc == 0,
        s.ram.len() == 0x10000,
        s.ram[0] == 256,
    ensures
        run_steps(s, 34).ram[16] == (if cmp_holds(op, a, b) {
            -1 as i16
        } else {
            0 as i16
        }),
        run_steps(s, 34).ram[0] == 256,
{
    let prog = seq![
        VMInstruction::PushConst(a),
        VMInstruction::PushConst(b),
        op,
        VMInstruction::Pop(Segment::Static, 0),
    ];
    let j = cmp_jump(op);
    let cond = cmp_holds(op, a, b);
    assert(offset_of(prog, 0) == 0);
    assert(offset_of(prog, 1) == offset_of(prog, 0) + len_of(prog[0]));
    assert(offset_of(prog, 2) == offset_of(prog, 1) + len_of(prog[1]));
    assert(offset_of(prog, 2) == 14);
    assert(lower_one(prog, 0) == push_const_seq(a));
    assert(lower_one(prog, 1) == push_const_seq(b));
    assert(lower_one(prog, 2) == cmp_seq(14, j));
    assert(lower_one(prog, 3) == pop_seg_seq(Segment::Static, 0));
    assert(lower_from(prog, 4) == Seq::<CPUInstruction>::empty());
    assert(lower_from(prog, 3) == lower_one(prog, 3) + lower_from(prog, 4));
    assert(lower_from(prog, 2) == lower_one(prog, 2) + lower_from(prog, 3));
    assert(lower_from(prog, 1) == lower_one(prog, 1) + lower_from(prog, 2));
    assert(lower_from(prog, 0) == lower_one(prog, 0) + lower_from(prog, 1));
    assert(s.rom =~= push_const_seq(a) + (push_const_seq(b) + (cmp_seq(14, j) + (pop_seg_seq(
        Segment::Static,
        0,
    ) + Seq::<CPUInstruction>::empty()))));
    assert(s.rom.len() == 34);
    assert(forall|j2: int| 0 <= j2 < 7 ==> s.rom[0 + j2] == #[trigger] push_const_seq(a)[j2]);
    lemma_exec_push_const(s, a);
    let t1 = run_steps(s, 7);
    assert(t1.ram[0] == 257);
    assert(forall|j2: int| 0 <= j2 < 7 ==> t1.rom[t1.pc + j2] == #[trigger] push_const_seq(
        b,
    )[j2]);
    lemma_exec_push_const(t1, b);
    let t2 = run_steps(t1, 7);
    lemma_run_steps_add(s, 7, 7);
    assert(t2 == run_steps(s, 14));
    assert(t2.ram[0] == 258);
    assert(t2.ram[256] == a);
    assert(t2.ram[257] == b);
    assert(t2.pc == 14);
    assert(forall|j2: int| 0 <= j2 < 15 ==> t2.rom[t2.pc + j2] == #[trigger] cmp_seq(
        14,
        j,
    )[j2]);
    lemma_exec_cmp(t2, op);
    let t3 = run_steps(t2, cmp_steps(cond));
    lemma_run_steps_add(s, 14, cmp_steps(cond));
    assert(t3 == run_steps(s, 14 + cmp_steps(cond)));
    assert(t3.pc == 29);
    assert(t3.ram[0] == 257);
    assert(t3.ram[256] == (if cond { -1 as i16 } else { 0 as i16 }));
    assert(forall|j2: int|
        0 <= j2 < 5 ==> t3.rom[t3.pc + j2] == #[trigger] pop_seg_seq(Segment::Static, 0)[j2]);
    lemma_exec_pop_direct(t3, Segment::Static, 0);
    let t4 = run_steps(t3, 5);
    lemma_run_steps_add(s, 14 + cmp_steps(cond), 5);
    assert(t4 == run_steps(s, 19 + cmp_steps(cond)));
    assert(t4.pc == 34);
    assert(t4.ram[16] == (if cond { -1 as i16 } else { 0 as i16 }));
    assert(t4.ram[0] == 256);
    lemma_run_halted(t4, (15 - cmp_steps(cond)) as nat);
    lemma_run_steps_add(s, 19 + cmp_steps(cond), (15 - cmp_steps(cond)) as nat);
    assert(run_steps(s, 34) == t4);
}

// ---------------------------------------------------------------------------
// The calling convention of the lowered code
// ---------------------------------------------------------------------------

/// Executing a save block pushes the value of one RAM cell.
pub proof fn lemma_exec_save_cell(s: CpuState, cell: int)
    requires
        s.ram.len() == 0x10000,
        s.pc + 7 <= s.rom.len(),
        forall|j: int| 0 <= j < 7 ==> s.rom[s.pc + j] == #[trigger] save_cell_seq(cell)[j],
        0 <= cell < 0x7FFF,
        cell < s.ram[0],
        1 <= s.ram[0] < 0x7FFE,
    ensures
        run_steps(s, 7).d == s.ram[cell],
        run_steps(s, 7).a == 0,
        run_steps(s, 7).pc == s.pc + 7,
        run_steps(s, 7).rom == s.rom,
        run_steps(s, 7).ram == s.ram.update(s.ram[0] as int, s.ram[cell]).update(
            0,
            (s.ram[0] + 1) as i16,
        ),
{
    let sp = s.ram[0];
    let v = s.ram[cell];
    assert(s.rom[s.pc as int + 0] == save_cell_seq(cell)[0]);
    assert(s.rom[s.pc as int + 1] == save_cell_seq(cell)[1]);
    assert(s.rom[s.pc as int + 2] == save_cell_seq(cell)[2]);
    assert(s.rom[s.pc as int + 3] == save_cell_seq(cell)[3]);
    assert(s.rom[s.pc as int + 4] == save_cell_seq(cell)[4]);
    assert(s.rom[s.pc as int + 5] == save_cell_seq(cell)[5]);
    assert(s.rom[s.pc as int + 6] == save_cell_seq(cell)[6]);
    let s1 = step_spec(s);
    assert(save_cell_seq(cell)[0] == ai(cell));
    assert(wrap16(cell) == cell as i16);
    assert(s1.a == cell as i16 && s1.d == s.d && s1.ram == s.ram && s1.pc == s.pc + 1 && s1.rom
        == s.rom);
    let s2 = step_spec(s1);
    assert(save_cell_seq(cell)[1] == ci(Comp::M, Dest::D));
    assert(addr_of(cell as i16) == cell);
    assert(s2.d == v && s2.a == cell as i16 && s2.ram == s.ram && s2.pc == s.pc + 2 && s2.rom
        == s.rom);
    let s3 = step_spec(s2);
    assert(save_cell_seq(cell)[2] == ai(0));
    assert(wrap16(0) == 0i16);
    assert(s3.a == 0 && s3.d == v && s3.ram == s.ram && s3.pc == s.pc + 3 && s3.rom == s.rom);
    let s4 = step_spec(s3);
    assert(save_cell_seq(cell)[3] == ci(Comp::M, Dest::A));
    assert(addr_of(0) == 0);
    assert(s4.a == sp && s4.d == v && s4.ram == s.ram && s4.pc == s.pc + 4 && s4.rom == s.rom);
    let s5 = step_spec(s4);
    assert(save_cell_seq(cell)[4] == ci(Comp::D, Dest::M));
    assert(addr_of(sp) == sp as int);
    assert(s5.a == sp && s5.d == v && s5.ram == s.ram.update(sp as int, v) && s5.pc == s.pc + 5
        && s5.rom == s.rom);
    let s6 = step_spec(s5);
    assert(save_cell_seq(cell)[5] == ai(0));
    assert(s6.a == 0 && s6.d == v && s6.ram == s5.ram && s6.pc == s.pc + 6 && s6.rom == s.rom);
    let s7 = step_spec(s6);
    assert(save_cell_seq(cell)[6] == ci(Comp::MPlusOne, Dest::M));
    assert(s6.ram[0] == sp);
    assert(wrap16(sp + 1) == (sp + 1) as i16);
    assert(s7.d == v && s7.a == 0 && s7.pc == s.pc + 7 && s7.rom == s.rom);
    assert(s7.ram == s.ram.update(sp as int, v).update(0, (sp + 1) as i16));
    assert(run_steps(s, 7) == run_steps(s1, 6));
    assert(run_steps(s1, 6) == run_steps(s2, 5));
    assert(run_steps(s2, 5) == run_steps(s3, 4));
    assert(run_steps(s3, 4) == run_steps(s4, 3));
    assert(run_steps(s4, 3) == run_steps(s5, 2));
    assert(run_steps(s5, 2) == run_steps(s6, 1));
    assert(run_steps(s6, 1) == run_steps(s7, 0));
}

/// Executing a `call` block pushes the return address and the four saved
/// pointers, sets `ARG` and `LCL`, and jumps to the target.
#[verifier::rlimit(100)]
pub proof fn lemma_exec_call(s: CpuState, target: int, n: int)
    requires
        s.ram.len() == 0x10000,
        s.pc + 47 <= s.rom.len(),
        s.pc + 47 < 0x8000,
        0 <= target < 0x8000,
        0 <= n < 0x1000,
        forall|j: int|
            0 <= j < 47 ==> s.rom[s.pc + j] == #[trigger] call_seq(s.pc as int, target, n)[j],
        17 + n <= s.ram[0] < 0x7000,
    ensures
        run_steps(s, 47).pc == target,
        run_steps(s, 47).rom == s.rom,
        run_steps(s, 47).ram == s.ram.update(s.ram[0] as int, (s.pc + 47) as i16).update(
            s.ram[0] + 1,
            s.ram[1],
        ).update(s.ram[0] + 2, s.ram[2]).update(s.ram[0] + 3, s.ram[3]).update(
            s.ram[0] + 4,
            s.ram[4],
        ).update(2, (s.ram[0] - n) as i16).update(1, (s.ram[0] + 5) as i16).update(
            0,
            (s.ram[0] + 5) as i16,
        ),
{
    let start = s.pc as int;
    let sp = s.ram[0];
    let ret = (start + 47) as i16;
    let l0 = s.ram[1];
    let g0 = s.ram[2];
    let t0 = s.ram[3];
    let h0 = s.ram[4];
    // The first seven instructions push the return address, exactly as a
    // constant push would.
    assert forall|j: int| 0 <= j < 7 implies s.rom[s.pc + j] == #[trigger] push_const_seq(
        ret,
    )[j] by {
        assert(s.rom[s.pc + j] == call_seq(start, target, n)[j]);
        assert(wrap16(start + 47) == ret);
        assert(push_const_seq(ret)[0] == ai(ret as int));
        assert(ai(ret as int) == ai(start + 47));
    }
    lemma_exec_push_const(s, ret);
    let t1 = run_steps(s, 7);
    assert(t1.ram == s.ram.update(sp as int, ret).update(0, (sp + 1) as i16));
    assert(t1.ram[0] == sp + 1 && t1.ram[1] == l0 && t1.ram[2] == g0 && t1.ram[3] == t0
        && t1.ram[4] == h0);
    assert forall|j: int| 0 <= j < 7 implies t1.rom[t1.pc + j] == #[trigger] save_cell_seq(
        1,
    )[j] by {
        assert(t1.rom[start + 7 + j] == call_seq(start, target, n)[7 + j]);
    }
    lemma_exec_save_cell(t1, 1);
    let t2 = run_steps(t1, 7);
    lemma_run_steps_add(s, 7, 7);
    assert(t2 == run_steps(s, 14));
    assert(t2.ram[0] == sp + 2 && t2.ram[1] == l0 && t2.ram[2] == g0 && t2.ram[3] == t0
        && t2.ram[4] == h0);
    assert forall|j: int| 0 <= j < 7 implies t2.rom[t2.pc + j] == #[trigger] save_cell_seq(
        2,
    )[j] by {
        assert(t2.rom[start + 14 + j] == call_seq(start, target, n)[14 + j]);
    }
    lemma_exec_save_cell(t2, 2);
    let t3 = run_steps(t2, 7);
    lemma_run_steps_add(s, 14, 7);
    assert(t3 == run_steps(s, 21));
    assert(t3.ram[0] == sp + 3 && t3.ram[1] == l0 && t3.ram[2] == g0 && t3.ram[3] == t0
        && t3.ram[4] == h0);
    assert forall|j: int| 0 <= j < 7 implies t3.rom[t3.pc + j] == #[trigger] save_cell_seq(
        3,
    )[j] by {
        assert(t3.rom[start + 21 + j] == call_seq(start, target, n)[21 + j]);
    }
    lemma_exec_save_cell(t3, 3);
    let t4 = run_steps(t3, 7);
    lemma_run_steps_add(s, 21, 7);
    assert(t4 == run_steps(s, 28));
    assert(t4.ram[0] == sp + 4 && t4.ram[1] == l0 && t4.ram[2] == g0 && t4.ram[3] == t0
        && t4.ram[4] == h0);
    assert forall|j: int| 0 <= j < 7 implies t4.rom[t4.pc + j] == #[trigger] save_cell_seq(
        4,
    )[j] by {
        assert(t4.rom[start + 28 + j] == call_seq(start, target, n)[28 + j]);
    }
    lemma_exec_save_cell(t4, 4);
    let t5 = run_steps(t4, 7);
    lemma_run_steps_add(s, 28, 7);
    assert(t5 == run_steps(s, 35));
    assert(t5.ram[0] == sp + 5 && t5.ram[1] == l0 && t5.ram[2] == g0 && t5.ram[3] == t0
        && t5.ram[4] == h0);
    assert(t5.pc == start + 35);
    // ARG = SP - 5 - n, LCL = SP, and the jump.
    assert(s.rom[start + 35] == call_seq(start, target, n)[35]);
    assert(s.rom[start + 36] == call_seq(start, target, n)[36]);
    assert(s.rom[start + 37] == call_seq(start, target, n)[37]);
    assert(s.rom[start + 38] == call_seq(start, target, n)[38]);
    assert(s.rom[start + 39] == call_seq(start, target, n)[39]);
    assert(s.rom[start + 40] == call_seq(start, target, n)[40]);
    assert(s.rom[start + 41] == call_seq(start, target, n)[41]);
    assert(s.rom[start + 42] == call_seq(start, target, n)[42]);
    assert(s.rom[start + 43] == call_seq(start, target, n)[43]);
    assert(s.rom[start + 44] == call_seq(start, target, n)[44]);
    assert(s.rom[start + 45] == call_seq(start, target, n)[45]);
    assert(s.rom[start + 46] == call_seq(start, target, n)[46]);
    let u1 = step_spec(t5);
    assert(call_seq(start, target, n)[35] == ai(5 + n));
    assert(wrap16(5 + n) == (5 + n) as i16);
    assert(u1.a == (5 + n) as i16 && u1.ram == t5.ram && u1.pc == start + 36 && u1.rom == s.rom);
    let u2 = step_spec(u1);
    assert(call_seq(start, target, n)[36] == ci(Comp::A, Dest::D));
    assert(u2.d == (5 + n) as i16 && u2.ram == t5.ram && u2.pc == start + 37 && u2.rom == s.rom);
    let u3 = step_spec(u2);
    assert(call_seq(start, target, n)[37] == ai(0));
    assert(wrap16(0) == 0i16);
    assert(u3.a == 0 && u3.d == u2.d && u3.ram == t5.ram && u3.pc == start + 38 && u3.rom
        == s.rom);
    let u4 = step_spec(u3);
    assert(call_seq(start, target, n)[38] == ci(Comp::MMinusD, Dest::D));
    assert(addr_of(0) == 0);
    assert(t5.ram[0] == (sp + 5) as i16);
    assert(wrap16((sp + 5) - (5 + n)) == (sp - n) as i16);
    assert(u4.d == (sp - n) as i16 && u4.ram == t5.ram && u4.pc == start + 39 && u4.rom == s.rom);
    let u5 = step_spec(u4);
    assert(call_seq(start, target, n)[39] == ai(2));
    assert(wrap16(2) == 2i16);
    assert(u5.a == 2 && u5.d == u4.d && u5.ram == t5.ram && u5.pc == start + 40 && u5.rom
        == s.rom);
    let u6 = step_spec(u5);
    assert(call_seq(start, target, n)[40] == ci(Comp::D, Dest::M));
    assert(addr_of(2) == 2);
    assert(u6.ram == t5.ram.update(2, (sp - n) as i16) && u6.pc == start + 41 && u6.rom == s.rom);
    let u7 = step_spec(u6);
    assert(call_seq(start, target, n)[41] == ai(0));
    assert(u7.a == 0 && u7.ram == u6.ram && u7.pc == start + 42 && u7.rom == s.rom);
    let u8 = step_spec(u7);
    assert(call_seq(start, target, n)[42] == ci(Comp::M, Dest::D));
    assert(u7.ram[0] == (sp + 5) as i16);
    assert(u8.d == (sp + 5) as i16 && u8.ram == u6.ram && u8.pc == start + 43 && u8.rom == s.rom);
    let u9 = step_spec(u8);
    assert(call_seq(start, target, n)[43] == ai(1));
    assert(wrap16(1) == 1i16);
    assert(u9.a == 1 && u9.d == u8.d && u9.ram == u6.ram && u9.pc == start + 44 && u9.rom
        == s.rom);
    let u10 = step_spec(u9);
    assert(call_seq(start, target, n)[44] == ci(Comp::D, Dest::M));
    assert(addr_of(1) == 1);
    assert(u10.ram == u6.ram.update(1, (sp + 5) as i16) && u10.pc == start + 45 && u10.rom
        == s.rom);
    let u11 = step_spec(u10);
    assert(call_seq(start, target, n)[45] == ai(target));
    assert(wrap16(target) == target as i16);
    assert(u11.a == target as i16 && u11.ram == u10.ram && u11.pc == start + 46 && u11.rom
        == s.rom);
    let u12 = step_spec(u11);
    assert(call_seq(start, target, n)[46] == CPUInstruction::CInstruc(
        Comp::Zero,
        Dest::Null,
        Jump::JMP,
    ));
    assert(addr_of(target as i16) == target);
    assert(u12.pc == target && u12.rom == s.rom && u12.ram == u10.ram);
    lemma_run_steps_add(s, 35, 12);
    assert(run_steps(t5, 12) == run_steps(u1, 11));
    assert(run_steps(u1, 11) == run_steps(u2, 10));
    assert(run_steps(u2, 10) == run_steps(u3, 9));
    assert(run_steps(u3, 9) == run_steps(u4, 8));
    assert(run_steps(u4, 8) == run_steps(u5, 7));
    assert(run_steps(u5, 7) == run_steps(u6, 6));
    assert(run_steps(u6, 6) == run_steps(u7, 5));
    assert(run_steps(u7, 5) == run_steps(u8, 4));
    assert(run_steps(u8, 4) == run_steps(u9, 3));
    assert(run_steps(u9, 3) == run_steps(u10, 2));
    assert(run_steps(u10, 2) == run_steps(u11, 1));
    assert(run_steps(u11, 1) == run_steps(u12, 0));
    assert(run_steps(s, 47) == u12);
    assert(u12.ram =~= s.ram.update(sp as int, ret).update(sp + 1, l0).update(sp + 2, g0).update(
        sp + 3,
        t0,
    ).update(sp + 4, h0).update(2, (sp - n) as i16).update(1, (sp + 5) as i16).update(
        0,
        (sp + 5) as i16,
    ));
}

/// Executing a `return` block moves the top of the stack into `*ARG`,
/// rolls `SP` back to `ARG + 1`, restores the four pointers from under the
/// frame, and jumps to the saved return address.
#[verifier::rlimit(100)]
pub proof fn lemma_exec_return(s: CpuState)
    requires
        s.ram.len() == 0x10000,
        s.pc + 42 <= s.rom.len(),
        forall|j: int| 0 <= j < 42 ==> s.rom[s.pc + j] == #[trigger] return_seq()[j],
        17 <= s.ram[2],
        s.ram[2] + 5 <= s.ram[1],
        22 <= s.ram[1] <= s.ram[0],
        s.ram[0] < 0x7000,
    ensures
        run_steps(s, 42).pc == addr_of(s.ram[s.ram[1] - 5]),
        run_steps(s, 42).rom == s.rom,
        run_steps(s, 42).ram == s.ram.update(13, (s.ram[1] - 4) as i16).update(
            14,
            s.ram[s.ram[1] - 5],
        ).update(s.ram[2] as int, s.ram[s.ram[0] - 1]).update(0, (s.ram[2] + 1) as i16).update(
            4,
            s.ram[s.ram[1] - 1],
        ).update(3, s.ram[s.ram[1] - 2]).update(2, s.ram[s.ram[1] - 3]).update(
            1,
            s.ram[s.ram[1] - 4],
        ),
{
    let b = s.pc as int;
    let sp = s.ram[0];
    let lcl = s.ram[1];
    let arg = s.ram[2];
    let ret = s.ram[lcl - 5];
    let rv = s.ram[sp - 1];
    let lv = s.ram[lcl - 4];
    let gv = s.ram[lcl - 3];
    let tv = s.ram[lcl - 2];
    let hv = s.ram[lcl - 1];
    assert forall|j: int| 0 <= j < 42 implies s.rom[b + j] == #[trigger] return_seq()[j] by {}
    let s1 = step_spec(s);
    assert(return_seq()[0] == ai(1) && wrap16(1) == 1i16);
    assert(s1.a == 1 && s1.ram == s.ram && s1.pc == b + 1 && s1.rom == s.rom);
    let s2 = step_spec(s1);
    assert(return_seq()[1] == ci(Comp::M, Dest::D) && addr_of(1) == 1);
    assert(s2.d == lcl && s2.ram == s.ram && s2.pc == b + 2);
    let s3 = step_spec(s2);
    assert(return_seq()[2] == ai(13) && wrap16(13) == 13i16);
    assert(s3.a == 13 && s3.d == lcl && s3.ram == s.ram && s3.pc == b + 3);
    let s4 = step_spec(s3);
    assert(return_seq()[3] == ci(Comp::D, Dest::M) && addr_of(13) == 13);
    assert(s4.d == lcl && s4.ram == s.ram.update(13, lcl) && s4.pc == b + 4);
    let s5 = step_spec(s4);
    assert(return_seq()[4] == ai(5) && wrap16(5) == 5i16);
    assert(s5.a == 5 && s5.d == lcl && s5.ram == s4.ram && s5.pc == b + 5);
    let s6 = step_spec(s5);
    assert(return_seq()[5] == ci(Comp::DMinusA, Dest::A));
    assert(wrap16(lcl - 5) == (lcl - 5) as i16);
    assert(s6.a == (lcl - 5) as i16 && s6.d == lcl && s6.ram == s4.ram && s6.pc == b + 6);
    let s7 = step_spec(s6);
    assert(return_seq()[6] == ci(Comp::M, Dest::D));
    assert(addr_of((lcl - 5) as i16) == lcl - 5);
    assert(s4.ram[lcl - 5] == ret);
    assert(s7.d == ret && s7.a == (lcl - 5) as i16 && s7.ram == s4.ram && s7.pc == b + 7);
    let s8 = step_spec(s7);
    assert(return_seq()[7] == ai(14) && wrap16(14) == 14i16);
    assert(s8.a == 14 && s8.d == ret && s8.ram == s4.ram && s8.pc == b + 8);
    let s9 = step_spec(s8);
    assert(return_seq()[8] == ci(Comp::D, Dest::M) && addr_of(14) == 14);
    assert(s9.ram == s4.ram.update(14, ret) && s9.pc == b + 9);
    let s10 = step_spec(s9);
    assert(return_seq()[9] == ai(0) && wrap16(0) == 0i16);
    assert(s10.a == 0 && s10.ram == s9.ram && s10.pc == b + 10);
    let s11 = step_spec(s10);
    assert(return_seq()[10] == ci(Comp::MMinusOne, Dest::AM) && addr_of(0) == 0);
    assert(s10.ram[0] == sp);
    assert(wrap16(sp - 1) == (sp - 1) as i16);
    assert(s11.a == (sp - 1) as i16 && s11.ram == s9.ram.update(0, (sp - 1) as i16) && s11.pc == b
        + 11);
    let s12 = step_spec(s11);
    assert(return_seq()[11] == ci(Comp::M, Dest::D));
    assert(addr_of((sp - 1) as i16) == sp - 1);
    assert(s11.ram[sp - 1] == rv);
    assert(s12.d == rv && s12.ram == s11.ram && s12.pc == b + 12);
    let s13 = step_spec(s12);
    assert(return_seq()[12] == ai(2) && wrap16(2) == 2i16);
    assert(s13.a == 2 && s13.d == rv && s13.ram == s11.ram && s13.pc == b + 13);
    let s14 = step_spec(s13);
    assert(return_seq()[13] == ci(Comp::M, Dest::A) && addr_of(2) == 2);
    assert(s13.ram[2] == arg);
    assert(s14.a == arg && s14.d == rv && s14.ram == s11.ram && s14.pc == b + 14);
    let s15 = step_spec(s14);
    assert(return_seq()[14] == ci(Comp::D, Dest::M));
    assert(addr_of(arg) == arg as int);
    assert(s15.ram == s11.ram.update(arg as int, rv) && s15.pc == b + 15);
    let s16 = step_spec(s15);
    assert(return_seq()[15] == ai(2));
    assert(s16.a == 2 && s16.ram == s15.ram && s16.pc == b + 16);
    let s17 = step_spec(s16);
    assert(return_seq()[16] == ci(Comp::MPlusOne, Dest::D));
    assert(s16.ram[2] == arg);
    assert(wrap16(arg + 1) == (arg + 1) as i16);
    assert(s17.d == (arg + 1) as i16 && s17.ram == s15.ram && s17.pc == b + 17);
    let s18 = step_spec(s17);
    assert(return_seq()[17] == ai(0));
    assert(s18.a == 0 && s18.d == s17.d && s18.ram == s15.ram && s18.pc == b + 18);
    let s19 = step_spec(s18);
    assert(return_seq()[18] == ci(Comp::D, Dest::M));
    assert(s19.ram == s15.ram.update(0, (arg + 1) as i16) && s19.pc == b + 19);
    let s20 = step_spec(s19);
    assert(return_seq()[19] == ai(13));
    assert(s20.a == 13 && s20.ram == s19.ram && s20.pc == b + 20);
    let s21 = step_spec(s20);
    assert(return_seq()[20] == ci(Comp::MMinusOne, Dest::AM));
    assert(s20.ram[13] == lcl);
    assert(wrap16(lcl - 1) == (lcl - 1) as i16);
    assert(s21.a == (lcl - 1) as i16 && s21.ram == s19.ram.update(13, (lcl - 1) as i16)
        && s21.pc == b + 21);
    let s22 = step_spec(s21);
    assert(return_seq()[21] == ci(Comp::M, Dest::D));
    assert(addr_of((lcl - 1) as i16) == lcl - 1);
    assert(s21.ram[lcl - 1] == hv);
    assert(s22.d == hv && s22.ram == s21.ram && s22.pc == b + 22);
    let s23 = step_spec(s22);
    assert(return_seq()[22] == ai(4) && wrap16(4) == 4i16);
    assert(s23.a == 4 && s23.d == hv && s23.ram == s21.ram && s23.pc == b + 23);
    let s24 = step_spec(s23);
    assert(return_seq()[23] == ci(Comp::D, Dest::M) && addr_of(4) == 4);
    assert(s24.ram == s21.ram.update(4, hv) && s24.pc == b + 24);
    let s25 = step_spec(s24);
    assert(return_seq()[24] == ai(13));
    assert(s25.a == 13 && s25.ram == s24.ram && s25.pc == b + 25);
    let s26 = step_spec(s25);
    assert(return_seq()[25] == ci(Comp::MMinusOne, Dest::AM));
    assert(s25.ram[13] == (lcl - 1) as i16);
    assert(wrap16(lcl - 2) == (lcl - 2) as i16);
    assert(s26.a == (lcl - 2) as i16 && s26.ram == s24.ram.update(13, (lcl - 2) as i16)
        && s26.pc == b + 26);
    let s27 = step_spec(s26);
    assert(return_seq()[26] == ci(Comp::M, Dest::D));
    assert(addr_of((lcl - 2) as i16) == lcl - 2);
    assert(s26.ram[lcl - 2] == tv);
    assert(s27.d == tv && s27.ram == s26.ram && s27.pc == b + 27);
    let s28 = step_spec(s27);
    assert(return_seq()[27] == ai(3) && wrap16(3) == 3i16);
    assert(s28.a == 3 && s28.d == tv && s28.ram == s26.ram && s28.pc == b + 28);
    let s29 = step_spec(s28);
    assert(return_seq()[28] == ci(Comp::D, Dest::M) && addr_of(3) == 3);
    assert(s29.ram == s26.ram.update(3, tv) && s29.pc == b + 29);
    let s30 = step_spec(s29);
    assert(return_seq()[29] == ai(13));
    assert(s30.a == 13 && s30.ram == s29.ram && s30.pc == b + 30);
    let s31 = step_spec(s30);
    assert(return_seq()[30] == ci(Comp::MMinusOne, Dest::AM));
    assert(s30.ram[13] == (lcl - 2) as i16);
    assert(wrap16(lcl - 3) == (lcl - 3) as i16);
    assert(s31.a == (lcl - 3) as i16 && s31.ram == s29.ram.update(13, (lcl - 3) as i16)
        && s31.pc == b + 31);
    let s32 = step_spec(s31);
    assert(return_seq()[31] == ci(Comp::M, Dest::D));
    assert(addr_of((lcl - 3) as i16) == lcl - 3);
    assert(s31.ram[lcl - 3] == gv);
    assert(s32.d == gv && s32.ram == s31.ram && s32.pc == b + 32);
    let s33 = step_spec(s32);
    assert(return_seq()[32] == ai(2));
    assert(s33.a == 2 && s33.d == gv && s33.ram == s31.ram && s33.pc == b + 33);
    let s34 = step_spec(s33);
    assert(return_seq()[33] == ci(Comp::D, Dest::M));
    assert(s34.ram == s31.ram.update(2, gv) && s34.pc == b + 34);
    let s35 = step_spec(s34);
    assert(return_seq()[34] == ai(13));
    assert(s35.a == 13 && s35.ram == s34.ram && s35.pc == b + 35);
    let s36 = step_spec(s35);
    assert(return_seq()[35] == ci(Comp::MMinusOne, Dest::AM));
    assert(s35.ram[13] == (lcl - 3) as i16);
    assert(wrap16(lcl - 4) == (lcl - 4) as i16);
    assert(s36.a == (lcl - 4) as i16 && s36.ram == s34.ram.update(13, (lcl - 4) as i16)
        && s36.pc == b + 36);
    let s37 = step_spec(s36);
    assert(return_seq()[36] == ci(Comp::M, Dest::D));
    assert(addr_of((lcl - 4) as i16) == lcl - 4);
    assert(s36.ram[lcl - 4] == lv);
    assert(s37.d == lv && s37.ram == s36.ram && s37.pc == b + 37);
    let s38 = step_spec(s37);
    assert(return_seq()[37] == ai(1));
    assert(s38.a == 1 && s38.d == lv && s38.ram == s36.ram && s38.pc == b + 38);
    let s39 = step_spec(s38);
    assert(return_seq()[38] == ci(Comp::D, Dest::M));
    assert(s39.ram == s36.ram.update(1, lv) && s39.pc == b + 39);
    let s40 = step_spec(s39);
    assert(return_seq()[39] == ai(14));
    assert(s40.a == 14 && s40.ram == s39.ram && s40.pc == b + 40);
    let s41 = step_spec(s40);
    assert(return_seq()[40] == ci(Comp::M, Dest::A));
    assert(s40.ram[14] == ret);
    assert(s41.a == ret && s41.ram == s39.ram && s41.pc == b + 41);
    let s42 = step_spec(s41);
    assert(return_seq()[41] == CPUInstruction::CInstruc(Comp::Zero, Dest::Null, Jump::JMP));
    assert(s42.pc == addr_of(ret) && s42.rom == s.rom && s42.ram == s39.ram);
    assert(run_steps(s, 42) == run_steps(s1, 41));
    assert(run_steps(s1, 41) == run_steps(s2, 40));
    assert(run_steps(s2, 40) == run_steps(s3, 39));
    assert(run_steps(s3, 39) == run_steps(s4, 38));
    assert(run_steps(s4, 38) == run_steps(s5, 37));
    assert(run_steps(s5, 37) == run_steps(s6, 36));
    assert(run_steps(s6, 36) == run_steps(s7, 35));
    assert(run_steps(s7, 35) == run_steps(s8, 34));
    assert(run_steps(s8, 34) == run_steps(s9, 33));
    assert(run_steps(s9, 33) == run_steps(s10, 32));
    assert(run_steps(s10, 32) == run_steps(s11, 31));
    assert(run_steps(s11, 31) == run_steps(s12, 30));
    assert(run_steps(s12, 30) == run_steps(s13, 29));
    assert(run_steps(s13, 29) == run_steps(s14, 28));
    assert(run_steps(s14, 28) == run_steps(s15, 27));
    assert(run_steps(s15, 27) == run_steps(s16, 26));
    assert(run_steps(s16, 26) == run_steps(s17, 25));
    assert(run_steps(s17, 25) == run_steps(s18, 24));
    assert(run_steps(s18, 24) == run_steps(s19, 23));
    assert(run_steps(s19, 23) == run_steps(s20, 22));
    assert(run_steps(s20, 22) == run_steps(s21, 21));
    assert(run_steps(s21, 21) == run_steps(s22, 20));
    assert(run_steps(s22, 20) == run_steps(s23, 19));
    assert(run_steps(s23, 19) == run_steps(s24, 18));
    assert(run_steps(s24, 18) == run_steps(s25, 17));
    assert(run_steps(s25, 17) == run_steps(s26, 16));
    assert(run_steps(s26, 16) == run_steps(s27, 15));
    assert(run_steps(s27, 15) == run_steps(s28, 14));
    assert(run_steps(s28, 14) == run_steps(s29, 13));
    assert(run_steps(s29, 13) == run_steps(s30, 12));
    assert(run_steps(s30, 12) == run_steps(s31, 11));
    assert(run_steps(s31, 11) == run_steps(s32, 10));
    assert(run_steps(s32, 10) == run_steps(s33, 9));
    assert(run_steps(s33, 9) == run_steps(s34, 8));
    assert(run_steps(s34, 8) == run_steps(s35, 7));
    assert(run_steps(s35, 7) == run_steps(s36, 6));
    assert(run_steps(s36, 6) == run_steps(s37, 5));
    assert(run_steps(s37, 5) == run_steps(s38, 4));
    assert(run_steps(s38, 4) == run_steps(s39, 3));
    assert(run_steps(s39, 3) == run_steps(s40, 2));
    assert(run_steps(s40, 2) == run_steps(s41, 1));
    assert(run_steps(s41, 1) == run_steps(s42, 0));
    assert(run_steps(s, 42) == s42);
    assert(s42.ram =~= s.ram.update(13, (lcl - 4) as i16).update(14, ret).update(
        arg as int,
        rv,
    ).update(0, (arg + 1) as i16).update(4, hv).update(3, tv).update(2, gv).update(1, lv));
}

/// The calling convention round trip: lowering a `call f n` immediately
/// followed by `function f 0; return` and running it restores `LCL`,
/// `ARG`, `THIS`, `THAT` to their pre-call values, rolls `SP` back over
/// the `n` arguments and leaves one result slot on top, and resumes at
/// the line after the call.  The result slot holds what the callee's
/// stack held on top at its `return` — here, with a callee that pushes
/// nothing, the saved `THAT` under its empty frame.
#[verifier::rlimit(100)]
pub proof fn lemma_calling_convention(s: CpuState, f: VMInstruction, n: usize)
    requires
        f is Function,
        f->Function_1 == 0,
        0 <= n < 0x1000,
        s.rom == lower_spec(
            seq![
                VMInstruction::Call(2, n),
                VMInstruction::Goto(1),
                f,
                VMInstruction::Return,
            ],
        ),
        s.pc == 0,
        s.ram.len() == 0x10000,
        17 + n <= s.ram[0] < 0x6000,
    ensures
        run_steps(s, 89).ram[0] == s.ram[0] - n + 1,
        run_steps(s, 89).ram[1] == s.ram[1],
        run_steps(s, 89).ram[2] == s.ram[2],
        run_steps(s, 89).ram[3] == s.ram[3],
        run_steps(s, 89).ram[4] == s.ram[4],
        run_steps(s, 89).ram[s.ram[0] - n] == s.ram[4],
        run_steps(s, 89).pc == 47,
{
    let prog = seq![VMInstruction::Call(2, n), VMInstruction::Goto(1), f, VMInstruction::Return];
    let sp = s.ram[0];
    let l0 = s.ram[1];
    let g0 = s.ram[2];
    let t0 = s.ram[3];
    let h0 = s.ram[4];
    assert(offset_of(prog, 0) == 0);
    assert(offset_of(prog, 1) == offset_of(prog, 0) + len_of(prog[0]));
    assert(offset_of(prog, 2) == offset_of(prog, 1) + len_of(prog[1]));
    assert(offset_of(prog, 3) == offset_of(prog, 2) + len_of(prog[2]));
    assert(offset_of(prog, 4) == offset_of(prog, 3) + len_of(prog[3]));
    assert(offset_of(prog, 1) == 47 && offset_of(prog, 2) == 49 && offset_of(prog, 3) == 49
        && offset_of(prog, 4) == 91);
    assert(target_of(prog, 2) == 49);
    assert(target_of(prog, 1) == 47);
    assert(lower_one(prog, 0) == call_seq(0, 49, n as int));
    assert(lower_one(prog, 1) == goto_seq(47));
    assert(lower_one(prog, 2) == function_seq(0));
    assert(function_seq(0) == Seq::<CPUInstruction>::empty());
    assert(lower_one(prog, 3) == return_seq());
    assert(lower_from(prog, 4) == Seq::<CPUInstruction>::empty());
    assert(lower_from(prog, 3) == lower_one(prog, 3) + lower_from(prog, 4));
    assert(lower_from(prog, 2) == lower_one(prog, 2) + lower_from(prog, 3));
    assert(lower_from(prog, 1) == lower_one(prog, 1) + lower_from(prog, 2));
    assert(lower_from(prog, 0) == lower_one(prog, 0) + lower_from(prog, 1));
    assert(s.rom =~= call_seq(0, 49, n as int) + (goto_seq(47) + (Seq::<
        CPUInstruction,
    >::empty() + (return_seq() + Seq::<CPUInstruction>::empty()))));
    assert(s.rom.len() == 91);
    assert(forall|j: int|
        0 <= j < 47 ==> s.rom[0 + j] == #[trigger] call_seq(0, 49, n as int)[j]);
    lemma_exec_call(s, 49, n as int);
    let t1 = run_steps(s, 47);
    assert(t1.pc == 49);
    assert(t1.ram == s.ram.update(sp as int, 47i16).update(sp + 1, l0).update(sp + 2, g0).update(
        sp + 3,
        t0,
    ).update(sp + 4, h0).update(2, (sp - n) as i16).update(1, (sp + 5) as i16).update(
        0,
        (sp + 5) as i16,
    ));
    assert(t1.ram[0] == sp + 5);
    assert(t1.ram[1] == sp + 5);
    assert(t1.ram[2] == sp - n);
    assert(t1.ram[sp as int] == 47i16);
    assert(t1.ram[sp + 1] == l0);
    assert(t1.ram[sp + 2] == g0);
    assert(t1.ram[sp + 3] == t0);
    assert(t1.ram[sp + 4] == h0);
    assert(forall|j: int| 0 <= j < 42 ==> t1.rom[t1.pc + j] == #[trigger] return_seq()[j]);
    lemma_exec_return(t1);
    let t2 = run_steps(t1, 42);
    lemma_run_steps_add(s, 47, 42);
    assert(t2 == run_steps(s, 89));
    assert(t2.ram == t1.ram.update(13, (sp + 1) as i16).update(14, 47i16).update(
        sp - n,
        h0,
    ).update(0, (sp - n + 1) as i16).update(4, h0).update(3, t0).update(2, g0).update(1, l0));
    assert(t2.pc == addr_of(47i16));
    assert(addr_of(47i16) == 47);
    assert(t2.ram[0] == sp - n + 1);
    assert(t2.ram[1] == l0);
    assert(t2.ram[2] == g0);
    assert(t2.ram[3] == t0);
    assert(t2.ram[4] == h0);
    assert(t2.ram[sp - n] == h0);
}

} // verus!
