//! The VM-language parser: whitespace-separated commands into VM
//! instructions, with label and function references resolved to instruction
//! indices by back-patching.

use crate::cpu::parser::{lookup, table_view};
use crate::lexer::{tokenize, vm_lex_spec, vm_toks_view, Error, Token, TokenV};
use crate::token_stream::Span;
use crate::vm::{instrs_view, Segment, VMInstruction, VMInstructionV};
use vstd::prelude::*;

verus! {

/// Mid-parse state: instructions so far, declared labels and functions, and
/// the references still waiting for a target.
pub ghost struct VmP {
    pub result: Seq<VMInstructionV>,
    pub labels: Seq<(Seq<char>, nat)>,
    pub functions: Seq<(Seq<char>, nat)>,
    pub pending_gotos: Seq<(Seq<char>, nat)>,
    pub pending_calls: Seq<(Seq<char>, nat)>,
}

/// The segment a token names, if it is a segment keyword.
pub open spec fn seg_of_tokenv(t: TokenV) -> Option<Segment> {
    match t {
        TokenV::This => Some(Segment::This),
        TokenV::That => Some(Segment::That),
        TokenV::Local => Some(Segment::Local),
        TokenV::Argument => Some(Segment::Argument),
        TokenV::Static => Some(Segment::Static),
        TokenV::Pointer => Some(Segment::Pointer),
        TokenV::Temp => Some(Segment::Temp),
        _ => None,
    }
}

fn seg_of_token(t: &Token) -> (r: Option<Segment>)
    ensures
        r == seg_of_tokenv(t@),
{
    match t {
        Token::This => Some(Segment::This),
        Token::That => Some(Segment::That),
        Token::Local => Some(Segment::Local),
        Token::Argument => Some(Segment::Argument),
        Token::Static => Some(Segment::Static),
        Token::Pointer => Some(Segment::Pointer),
        Token::Temp => Some(Segment::Temp),
        _ => None,
    }
}

/// The segment and index of a `push` or `pop` command at position `i`, with
/// the position just after them.
pub open spec fn seg_index_at(toks: Seq<TokenV>, i: int) -> Option<(Segment, i16, int)> {
    if i + 2 < toks.len() {
        match seg_of_tokenv(toks[i + 1]) {
            Some(seg) => match toks[i + 2] {
                TokenV::Number(v) => if v > 32767 {
                    None
                } else {
                    Some((seg, v as i16, i + 3))
                },
                _ => None,
            },
            None => None,
        }
    } else {
        None
    }
}

/// The instruction of a `push` command at position `i`: a constant with an
/// optional minus sign, or a segment cell.
pub open spec fn push_at(toks: Seq<TokenV>, i: int) -> Option<(VMInstructionV, int)> {
    if i + 1 < toks.len() && toks[i + 1] == TokenV::Constant {
        if i + 2 < toks.len() && toks[i + 2] == TokenV::Minus {
            if i + 3 < toks.len() {
                match toks[i + 3] {
                    TokenV::Number(v) => if v > 32768 {
                        None
                    } else {
                        Some((VMInstructionV::PushConst((-(v as int)) as i16), i + 4))
                    },
                    _ => None,
                }
            } else {
                None
            }
        } else if i + 2 < toks.len() {
            match toks[i + 2] {
                TokenV::Number(v) => if v > 32767 {
                    None
                } else {
                    Some((VMInstructionV::PushConst(v as i16), i + 3))
                },
                _ => None,
            }
        } else {
            None
        }
    } else {
        match seg_index_at(toks, i) {
            Some((seg, v, n)) => Some((VMInstructionV::Push(seg, v), n)),
            None => None,
        }
    }
}

/// The name and number after a `function` or `call` keyword at position
/// `i`, with the position just after them.
pub open spec fn name_num_at(toks: Seq<TokenV>, i: int) -> Option<(Seq<char>, nat, int)> {
    if i + 2 < toks.len() {
        match toks[i + 1] {
            TokenV::Name(name) => match toks[i + 2] {
                TokenV::Number(v) => Some((name, v, i + 3)),
                _ => None,
            },
            _ => None,
        }
    } else {
        None
    }
}

/// The name after a `label`, `goto` or `if-goto` keyword.
pub open spec fn name_at(toks: Seq<TokenV>, i: int) -> Option<(Seq<char>, int)> {
    if i + 1 < toks.len() {
        match toks[i + 1] {
            TokenV::Name(name) => Some((name, i + 2)),
            _ => None,
        }
    } else {
        None
    }
}

/// The streaming pass over the tokens.  Simple commands append their
/// instruction; `label` and `function` also record the current index;
/// `goto`, `if-goto` and `call` leave a placeholder and a pending
/// reference.
pub open spec fn vm_pass(toks: Seq<TokenV>, i: int, st: VmP) -> Option<VmP>
    decreases toks.len() - i,
    when 0 <= i
{
    if i >= toks.len() {
        Some(st)
    } else {
        match toks[i] {
            TokenV::Add => vm_pass(toks, i + 1, VmP { result: st.result.push(VMInstructionV::Add), ..st }),
            TokenV::Sub => vm_pass(toks, i + 1, VmP { result: st.result.push(VMInstructionV::Sub), ..st }),
            TokenV::Neg => vm_pass(toks, i + 1, VmP { result: st.result.push(VMInstructionV::Neg), ..st }),
            TokenV::Eq => vm_pass(toks, i + 1, VmP { result: st.result.push(VMInstructionV::Eq), ..st }),
            TokenV::Gt => vm_pass(toks, i + 1, VmP { result: st.result.push(VMInstructionV::Gt), ..st }),
            TokenV::Lt => vm_pass(toks, i + 1, VmP { result: st.result.push(VMInstructionV::Lt), ..st }),
            TokenV::And => vm_pass(toks, i + 1, VmP { result: st.result.push(VMInstructionV::And), ..st }),
            TokenV::Or => vm_pass(toks, i + 1, VmP { result: st.result.push(VMInstructionV::Or), ..st }),
            TokenV::Not => vm_pass(toks, i + 1, VmP { result: st.result.push(VMInstructionV::Not), ..st }),
            TokenV::Return => vm_pass(
                toks,
                i + 1,
                VmP { result: st.result.push(VMInstructionV::Return), ..st },
            ),
            TokenV::Push => match push_at(toks, i) {
                Some((instr, n)) => if n <= i {
                    None
                } else {
                    vm_pass(toks, n, VmP { result: st.result.push(instr), ..st })
                },
                None => None,
            },
            TokenV::Pop => match seg_index_at(toks, i) {
                Some((seg, v, n)) => if n <= i {
                    None
                } else {
                    vm_pass(
                        toks,
                        n,
                        VmP { result: st.result.push(VMInstructionV::Pop(seg, v)), ..st },
                    )
                },
                None => None,
            },
            TokenV::Label => match name_at(toks, i) {
                Some((name, n)) => vm_pass(
                    toks,
                    n,
                    VmP {
                        result: st.result.push(VMInstructionV::Label(name)),
                        labels: st.labels.push((name, st.result.len())),
                        ..st
                    },
                ),
                None => None,
            },
            TokenV::Goto => match name_at(toks, i) {
                Some((name, n)) => vm_pass(
                    toks,
                    n,
                    VmP {
                        result: st.result.push(VMInstructionV::Goto(0)),
                        pending_gotos: st.pending_gotos.push((name, st.result.len())),
                        ..st
                    },
                ),
                None => None,
            },
            TokenV::IfGoto => match name_at(toks, i) {
                Some((name, n)) => vm_pass(
                    toks,
                    n,
                    VmP {
                        result: st.result.push(VMInstructionV::IfGoto(0)),
                        pending_gotos: st.pending_gotos.push((name, st.result.len())),
                        ..st
                    },
                ),
                None => None,
            },
            TokenV::Function => match name_num_at(toks, i) {
                Some((name, num, n)) => vm_pass(
                    toks,
                    n,
                    VmP {
                        result: st.result.push(VMInstructionV::Function(name, num)),
                        functions: st.functions.push((name, st.result.len())),
                        ..st
                    },
                ),
                None => None,
            },
            TokenV::Call => match name_num_at(toks, i) {
                Some((name, num, n)) => vm_pass(
                    toks,
                    n,
                    VmP {
                        result: st.result.push(VMInstructionV::Call(0, num)),
                        pending_calls: st.pending_calls.push((name, st.result.len())),
                        ..st
                    },
                ),
                None => None,
            },
            _ => None,
        }
    }
}

/// Patches the pending `goto` and `if-goto` placeholders against the label
/// table; an undeclared label fails.  The first declaration of a name wins.
pub open spec fn patch_gotos(
    pending: Seq<(Seq<char>, nat)>,
    k: int,
    labels: Seq<(Seq<char>, nat)>,
    result: Seq<VMInstructionV>,
) -> Option<Seq<VMInstructionV>>
    decreases pending.len() - k,
    when 0 <= k
{
    if k >= pending.len() {
        Some(result)
    } else {
        match lookup(labels, pending[k].0) {
            Some(addr) => {
                let idx = pending[k].1 as int;
                let patched = if result[idx] is Goto {
                    result.update(idx, VMInstructionV::Goto(addr))
                } else {
                    result.update(idx, VMInstructionV::IfGoto(addr))
                };
                patch_gotos(pending, k + 1, labels, patched)
            },
            None => None,
        }
    }
}

/// Patches the pending `call` placeholders against the function table,
/// installing the function's defined instruction index and keeping the
/// argument count written at the call site; an undeclared function fails.
pub open spec fn patch_calls(
    pending: Seq<(Seq<char>, nat)>,
    k: int,
    functions: Seq<(Seq<char>, nat)>,
    result: Seq<VMInstructionV>,
) -> Option<Seq<VMInstructionV>>
    decreases pending.len() - k,
    when 0 <= k
{
    if k >= pending.len() {
        Some(result)
    } else {
        match lookup(functions, pending[k].0) {
            Some(fidx) => {
                let idx = pending[k].1 as int;
                let n_args = if result[idx] is Call {
                    result[idx]->Call_1
                } else {
                    0
                };
                patch_calls(
                    pending,
                    k + 1,
                    functions,
                    result.update(idx, VMInstructionV::Call(fidx, n_args)),
                )
            },
            None => None,
        }
    }
}

/// What `parse` returns on a given VM text.
pub open spec fn vm_parse_spec(s: Seq<char>) -> Option<Seq<VMInstructionV>> {
    match vm_lex_spec(s, 0) {
        None => None,
        Some(toks) => match vm_pass(
            toks,
            0,
            VmP {
                result: Seq::empty(),
                labels: Seq::empty(),
                functions: Seq::empty(),
                pending_gotos: Seq::empty(),
                pending_calls: Seq::empty(),
            },
        ) {
            None => None,
            Some(st) => match patch_gotos(st.pending_gotos, 0, st.labels, st.result) {
                None => None,
                Some(r1) => patch_calls(st.pending_calls, 0, st.functions, r1),
            },
        },
    }
}

/// Looks a name up in the label table, front entries first.
fn lookup_label_exec(m: &Vec<(String, usize)>, k: &String) -> (r: Option<usize>)
    ensures
        match r {
            Some(n) => lookup(table_view(m@), k@) == Some(n as nat),
            None => lookup(table_view(m@), k@) is None,
        },
{
    crate::cpu::parser::lookup_exec(m, k)
}

/// Parses VM text into the instruction list.  Label and function references
/// resolve to the declared instruction indices, in either direction; a
/// reference that no declaration answers is a parse error.  The result is a
/// function of the text alone.
#[verifier::loop_isolation(false)]
pub fn parse(code: &str) -> (r: Result<Vec<VMInstruction>, Error>)
    ensures
        match r {
            Ok(instrs) => vm_parse_spec(code@) == Some(instrs_view(instrs@)),
            Err(_) => vm_parse_spec(code@) is None,
        },
{
    let ts = match tokenize(code) {
        Ok(ts) => ts,
        Err(e) => {
            return Err(e);
        },
    };
    let toks = ts.tokens;
    let spans = ts.spans;
    let ghost tv = vm_toks_view(toks@);
    let ghost init = VmP {
        result: Seq::empty(),
        labels: Seq::empty(),
        functions: Seq::empty(),
        pending_gotos: Seq::empty(),
        pending_calls: Seq::empty(),
    };
    let mut result: Vec<VMInstruction> = Vec::new();
    let mut labels: Vec<(String, usize)> = Vec::new();
    let mut functions: Vec<(String, usize)> = Vec::new();
    let mut pending_gotos: Vec<(String, usize)> = Vec::new();
    let mut pending_calls: Vec<(String, usize)> = Vec::new();
    let mut i: usize = 0;
    proof {
        assert(instrs_view(result@) =~= Seq::<VMInstructionV>::empty());
        assert(table_view(labels@) =~= Seq::<(Seq<char>, nat)>::empty());
        assert(table_view(functions@) =~= Seq::<(Seq<char>, nat)>::empty());
        assert(table_view(pending_gotos@) =~= Seq::<(Seq<char>, nat)>::empty());
        assert(table_view(pending_calls@) =~= Seq::<(Seq<char>, nat)>::empty());
    }
    while i < toks.len()
        invariant
            i <= toks@.len(),
            spans@.len() == toks@.len(),
            vm_pass(tv, 0, init) == vm_pass(
                tv,
                i as int,
                VmP {
                    result: instrs_view(result@),
                    labels: table_view(labels@),
                    functions: table_view(functions@),
                    pending_gotos: table_view(pending_gotos@),
                    pending_calls: table_view(pending_calls@),
                },
            ),
            forall|t: int|
                0 <= t < pending_gotos@.len() ==> (#[trigger] pending_gotos@[t]).1
                    < result@.len(),
            forall|t: int|
                0 <= t < pending_calls@.len() ==> (#[trigger] pending_calls@[t]).1
                    < result@.len(),
        decreases toks@.len() - i,
    {
        let ghost st = VmP {
            result: instrs_view(result@),
            labels: table_view(labels@),
            functions: table_view(functions@),
            pending_gotos: table_view(pending_gotos@),
            pending_calls: table_view(pending_calls@),
        };
        proof {
            assert(tv[i as int] == toks@[i as int]@);
        }
        match &toks[i] {
            Token::Add => {
                let ghost rv0 = result@;
                result.push(VMInstruction::Add);
                proof {
                    lemma_view_push(rv0, VMInstruction::Add);
                }
                i = i + 1;
            },
            Token::Sub => {
                let ghost rv0 = result@;
                result.push(VMInstruction::Sub);
                proof {
                    lemma_view_push(rv0, VMInstruction::Sub);
                }
                i = i + 1;
            },
            Token::Neg => {
                let ghost rv0 = result@;
                result.push(VMInstruction::Neg);
                proof {
                    lemma_view_push(rv0, VMInstruction::Neg);
                }
                i = i + 1;
            },
            Token::Eq => {
                let ghost rv0 = result@;
                result.push(VMInstruction::Eq);
                proof {
                    lemma_view_push(rv0, VMInstruction::Eq);
                }
                i = i + 1;
            },
            Token::Gt => {
                let ghost rv0 = result@;
                result.push(VMInstruction::Gt);
                proof {
                    lemma_view_push(rv0, VMInstruction::Gt);
                }
                i = i + 1;
            },
            Token::Lt => {
                let ghost rv0 = result@;
                result.push(VMInstruction::Lt);
                proof {
                    lemma_view_push(rv0, VMInstruction::Lt);
                }
                i = i + 1;
            },
            Token::And => {
                let ghost rv0 = result@;
                result.push(VMInstruction::And);
                proof {
                    lemma_view_push(rv0, VMInstruction::And);
                }
                i = i + 1;
            },
            Token::Or => {
                let ghost rv0 = result@;
                result.push(VMInstruction::Or);
                proof {
                    lemma_view_push(rv0, VMInstruction::Or);
                }
                i = i + 1;
            },
            Token::Not => {
                let ghost rv0 = result@;
                result.push(VMInstruction::Not);
                proof {
                    lemma_view_push(rv0, VMInstruction::Not);
                }
                i = i + 1;
            },
            Token::Return => {
                let ghost rv0 = result@;
                result.push(VMInstruction::Return);
                proof {
                    lemma_view_push(rv0, VMInstruction::Return);
                }
                i = i + 1;
            },
            Token::Push => {
                match push_exec(&toks, &spans, i) {
                    Ok((instr, n)) => {
                        let ghost iv = instr@;
                        result.push(instr);
                        proof {
                            assert(instrs_view(result@) =~= st.result.push(iv));
                        }
                        i = n;
                    },
                    Err(e) => {
                        return Err(e);
                    },
                }
            },
            Token::Pop => {
                match seg_index_exec(&toks, &spans, i) {
                    Ok((seg, v, n)) => {
                        let ghost rv0 = result@;
                        result.push(VMInstruction::Pop(seg, v));
                        proof {
                            lemma_view_push(rv0, VMInstruction::Pop(seg, v));
                        }
                        i = n;
                    },
                    Err(e) => {
                        return Err(e);
                    },
                }
            },
            Token::Label => {
                match name_exec(&toks, &spans, i) {
                    Ok((name, n)) => {
                        let ghost nv = name@;
                        labels.push((name.clone(), result.len()));
                        result.push(VMInstruction::Label(name));
                        proof {
                            assert(instrs_view(result@) =~= st.result.push(
                                VMInstructionV::Label(nv),
                            ));
                            assert(table_view(labels@) =~~= st.labels.push(
                                (nv, st.result.len()),
                            ));
                        }
                        i = n;
                    },
                    Err(e) => {
                        return Err(e);
                    },
                }
            },
            Token::Goto => {
                match name_exec(&toks, &spans, i) {
                    Ok((name, n)) => {
                        let ghost nv = name@;
                        pending_gotos.push((name, result.len()));
                        result.push(VMInstruction::Goto(0));
                        proof {
                            assert(instrs_view(result@) =~= st.result.push(
                                VMInstructionV::Goto(0),
                            ));
                            assert(table_view(pending_gotos@) =~~= st.pending_gotos.push(
                                (nv, st.result.len()),
                            ));
                        }
                        i = n;
                    },
                    Err(e) => {
                        return Err(e);
                    },
                }
            },
            Token::IfGoto => {
                match name_exec(&toks, &spans, i) {
                    Ok((name, n)) => {
                        let ghost nv = name@;
                        pending_gotos.push((name, result.len()));
                        result.push(VMInstruction::IfGoto(0));
                        proof {
                            assert(instrs_view(result@) =~= st.result.push(
                                VMInstructionV::IfGoto(0),
                            ));
                            assert(table_view(pending_gotos@) =~~= st.pending_gotos.push(
                                (nv, st.result.len()),
                            ));
                        }
                        i = n;
                    },
                    Err(e) => {
                        return Err(e);
                    },
                }
            },
            Token::Function => {
                match name_num_exec(&toks, &spans, i) {
                    Ok((name, num, n)) => {
                        let ghost nv = name@;
                        functions.push((name.clone(), result.len()));
                        result.push(VMInstruction::Function(name, num));
                        proof {
                            assert(instrs_view(result@) =~= st.result.push(
                                VMInstructionV::Function(nv, num as nat),
                            ));
                            assert(table_view(functions@) =~~= st.functions.push(
                                (nv, st.result.len()),
                            ));
                        }
                        i = n;
                    },
                    Err(e) => {
                        return Err(e);
                    },
                }
            },
            Token::Call => {
                match name_num_exec(&toks, &spans, i) {
                    Ok((name, num, n)) => {
                        let ghost nv = name@;
                        pending_calls.push((name, result.len()));
                        result.push(VMInstruction::Call(0, num));
                        proof {
                            assert(instrs_view(result@) =~= st.result.push(
                                VMInstructionV::Call(0, num as nat),
                            ));
                            assert(table_view(pending_calls@) =~~= st.pending_calls.push(
                                (nv, st.result.len()),
                            ));
                        }
                        i = n;
                    },
                    Err(e) => {
                        return Err(e);
                    },
                }
            },
            _ => {
                return Err(Error::at_span(spans[i], "expected a command"));
            },
        }
    }
    let ghost st_end = VmP {
        result: instrs_view(result@),
        labels: table_view(labels@),
        functions: table_view(functions@),
        pending_gotos: table_view(pending_gotos@),
        pending_calls: table_view(pending_calls@),
    };
    proof {
        assert(vm_pass(tv, 0, init) == Some(st_end));
    }
    // Patch the goto placeholders.
    let ghost gv = table_view(pending_gotos@);
    let ghost lv = table_view(labels@);
    let ghost r0 = instrs_view(result@);
    let mut k: usize = 0;
    while k < pending_gotos.len()
        invariant
            k <= pending_gotos@.len(),
            result@.len() == r0.len(),
            forall|t: int|
                0 <= t < pending_gotos@.len() ==> (#[trigger] pending_gotos@[t]).1
                    < result@.len(),
            forall|t: int|
                0 <= t < pending_calls@.len() ==> (#[trigger] pending_calls@[t]).1
                    < result@.len(),
            patch_gotos(gv, 0, lv, r0) == patch_gotos(gv, k as int, lv, instrs_view(result@)),
        decreases pending_gotos@.len() - k,
    {
        let ghost rv = instrs_view(result@);
        proof {
            assert(gv[k as int] == (pending_gotos@[k as int].0@, pending_gotos@[
                k as int
            ].1 as nat));
        }
        let idx = pending_gotos[k].1;
        let found = {
            let name_ref = &pending_gotos[k].0;
            lookup_label_exec(&labels, name_ref)
        };
        match found {
            Some(addr) => {
                let is_goto = match &result[idx] {
                    VMInstruction::Goto(_) => true,
                    _ => false,
                };
                proof {
                    assert(rv[idx as int] == result@[idx as int]@);
                }
                if is_goto {
                    result.set(idx, VMInstruction::Goto(addr));
                    proof {
                        assert(instrs_view(result@) =~= rv.update(
                            idx as int,
                            VMInstructionV::Goto(addr as nat),
                        ));
                    }
                } else {
                    result.set(idx, VMInstruction::IfGoto(addr));
                    proof {
                        assert(instrs_view(result@) =~= rv.update(
                            idx as int,
                            VMInstructionV::IfGoto(addr as nat),
                        ));
                    }
                }
            },
            None => {
                return Err(Error::eof("cannot find the label"));
            },
        }
        k = k + 1;
    }
    proof {
        assert(patch_gotos(gv, 0, lv, r0) == Some(instrs_view(result@)));
    }
    // Patch the call placeholders.
    let ghost cv = table_view(pending_calls@);
    let ghost fv = table_view(functions@);
    let ghost r1 = instrs_view(result@);
    let mut k2: usize = 0;
    while k2 < pending_calls.len()
        invariant
            k2 <= pending_calls@.len(),
            result@.len() == r1.len(),
            forall|t: int|
                0 <= t < pending_calls@.len() ==> (#[trigger] pending_calls@[t]).1
                    < result@.len(),
            patch_calls(cv, 0, fv, r1) == patch_calls(cv, k2 as int, fv, instrs_view(result@)),
        decreases pending_calls@.len() - k2,
    {
        let ghost rv = instrs_view(result@);
        proof {
            assert(cv[k2 as int] == (pending_calls@[k2 as int].0@, pending_calls@[
                k2 as int
            ].1 as nat));
        }
        let idx = pending_calls[k2].1;
        let found = {
            let name_ref = &pending_calls[k2].0;
            lookup_label_exec(&functions, name_ref)
        };
        match found {
            Some(fidx) => {
                let n_args = match &result[idx] {
                    VMInstruction::Call(_, n) => *n,
                    _ => 0,
                };
                proof {
                    assert(rv[idx as int] == result@[idx as int]@);
                }
                result.set(idx, VMInstruction::Call(fidx, n_args));
                proof {
                    assert(instrs_view(result@) =~= rv.update(
                        idx as int,
                        VMInstructionV::Call(fidx as nat, n_args as nat),
                    ));
                }
            },
            None => {
                return Err(Error::eof("cannot find the function"));
            },
        }
        k2 = k2 + 1;
    }
    proof {
        assert(patch_calls(cv, 0, fv, r1) == Some(instrs_view(result@)));
    }
    Ok(result)
}

/// Pushing one instruction pushes its view.
proof fn lemma_view_push(before: Seq<VMInstruction>, x: VMInstruction)
    ensures
        instrs_view(before.push(x)) == instrs_view(before).push(x@),
{
    assert(instrs_view(before.push(x)) =~= instrs_view(before).push(x@));
}

/// Reads the segment and index after a `push` or `pop` keyword.
fn seg_index_exec(toks: &Vec<Token>, spans: &Vec<Span>, i: usize) -> (r: Result<
    (Segment, i16, usize),
    Error,
>)
    requires
        i < toks@.len(),
        spans@.len() == toks@.len(),
    ensures
        match r {
            Ok((seg, v, n)) => seg_index_at(vm_toks_view(toks@), i as int) == Some(
                (seg, v, n as int),
            ) && i < n <= toks@.len(),
            Err(_) => seg_index_at(vm_toks_view(toks@), i as int) is None,
        },
{
    let n_toks = toks.len();
    if (i as u128) + 2 >= (n_toks as u128) {
        return Err(Error::eof("expected a segment and an index"));
    }
    let seg = match seg_of_token(&toks[i + 1]) {
        Some(seg) => seg,
        None => {
            return Err(Error::at_span(spans[i + 1], "expected a segment"));
        },
    };
    match &toks[i + 2] {
        Token::Number(v) => {
            if *v > 32767 {
                return Err(Error::at_span(spans[i + 2], "index out of range"));
            }
            Ok((seg, *v as i16, i + 3))
        },
        _ => Err(Error::at_span(spans[i + 2], "expected an index")),
    }
}

/// Reads a whole `push` command.
fn push_exec(toks: &Vec<Token>, spans: &Vec<Span>, i: usize) -> (r: Result<
    (VMInstruction, usize),
    Error,
>)
    requires
        i < toks@.len(),
        spans@.len() == toks@.len(),
    ensures
        match r {
            Ok((instr, n)) => push_at(vm_toks_view(toks@), i as int) == Some(
                (instr@, n as int),
            ) && i < n <= toks@.len(),
            Err(_) => push_at(vm_toks_view(toks@), i as int) is None,
        },
{
    let n_toks = toks.len();
    let is_const = i + 1 < n_toks && match &toks[i + 1] {
        Token::Constant => true,
        _ => false,
    };
    if is_const {
        let has_minus = (i as u128) + 2 < (n_toks as u128) && match &toks[i + 2] {
            Token::Minus => true,
            _ => false,
        };
        if has_minus {
            if (i as u128) + 3 >= (n_toks as u128) {
                return Err(Error::eof("expected a constant"));
            }
            match &toks[i + 3] {
                Token::Number(v) => {
                    if *v > 32768 {
                        return Err(Error::at_span(spans[i + 3], "constant out of range"));
                    }
                    let val: i16 = if *v == 32768 {
                        i16::MIN
                    } else {
                        -(*v as i16)
                    };
                    Ok((VMInstruction::PushConst(val), i + 4))
                },
                _ => Err(Error::at_span(spans[i + 3], "expected a constant")),
            }
        } else {
            if (i as u128) + 2 >= (n_toks as u128) {
                return Err(Error::eof("expected a constant"));
            }
            match &toks[i + 2] {
                Token::Number(v) => {
                    if *v > 32767 {
                        return Err(Error::at_span(spans[i + 2], "constant out of range"));
                    }
                    Ok((VMInstruction::PushConst(*v as i16), i + 3))
                },
                _ => Err(Error::at_span(spans[i + 2], "expected a constant")),
            }
        }
    } else {
        match seg_index_exec(toks, spans, i) {
            Ok((seg, v, n)) => Ok((VMInstruction::Push(seg, v), n)),
            Err(e) => Err(e),
        }
    }
}

/// Reads the name after a `label`, `goto` or `if-goto` keyword.
fn name_exec(toks: &Vec<Token>, spans: &Vec<Span>, i: usize) -> (r: Result<(String, usize), Error>)
    requires
        i < toks@.len(),
        spans@.len() == toks@.len(),
    ensures
        match r {
            Ok((name, n)) => name_at(vm_toks_view(toks@), i as int) == Some(
                (name@, n as int),
            ) && i < n <= toks@.len(),
            Err(_) => name_at(vm_toks_view(toks@), i as int) is None,
        },
{
    let n_toks = toks.len();
    if i + 1 >= n_toks {
        return Err(Error::eof("expected a name"));
    }
    match &toks[i + 1] {
        Token::Name(s) => Ok((s.clone(), i + 2)),
        _ => Err(Error::at_span(spans[i + 1], "expected a name")),
    }
}

/// Reads the name and number after a `function` or `call` keyword.
fn name_num_exec(toks: &Vec<Token>, spans: &Vec<Span>, i: usize) -> (r: Result<
    (String, usize, usize),
    Error,
>)
    requires
        i < toks@.len(),
        spans@.len() == toks@.len(),
    ensures
        match r {
            Ok((name, num, n)) => name_num_at(vm_toks_view(toks@), i as int) == Some(
                (name@, num as nat, n as int),
            ) && i < n <= toks@.len(),
            Err(_) => name_num_at(vm_toks_view(toks@), i as int) is None,
        },
{
    let n_toks = toks.len();
    if (i as u128) + 2 >= (n_toks as u128) {
        return Err(Error::eof("expected a name and a number"));
    }
    let name = match &toks[i + 1] {
        Token::Name(s) => s.clone(),
        _ => {
            return Err(Error::at_span(spans[i + 1], "expected a name"));
        },
    };
    match &toks[i + 2] {
        Token::Number(v) => Ok((name, *v, i + 3)),
        _ => Err(Error::at_span(spans[i + 2], "expected a number")),
    }
}

/// Parsing is deterministic: the instruction list is a function of the
/// source text alone.
pub proof fn lemma_vm_parse_deterministic(s1: Seq<char>, s2: Seq<char>)
    requires
        s1 == s2,
    ensures
        vm_parse_spec(s1) == vm_parse_spec(s2),
{
}

} // verus!
