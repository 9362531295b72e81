use vstd::prelude::*;
use vstd::string::StrSliceExecFns;
use crate::error::{LexingError, ParsingError};
use crate::instruction::{Instruction, InstructionType};
use crate::label::{Label, LabelSnap, LabelTable, find_label};
use crate::text::{parse_value, parse_value_exec, split_chars, split_str, str_eq, views_of};

verus! {

/// One line the running program asked to print: the top of the stack in
/// its default or fixed-precision form, or the whole stack as a debugging
/// aid. Rendering is the caller's business; the engine records the events
/// in order.
#[derive(Clone, Copy, Debug, PartialEq, Eq)]
pub enum OutputEvent {
    Out(i64),
    Outf(i64),
    Dump,
}

/// The mathematical content of a machine: the operand stack (last element
/// on top), the resolved program, the instruction pointer, the labels
/// recorded while loading, the halt flag, and the output emitted so far.
pub struct VmSnap {
    pub stack: Seq<i64>,
    pub program: Seq<Instruction>,
    pub instruction_pointer: int,
    pub labels: Seq<LabelSnap>,
    pub halt: bool,
    pub output: Seq<OutputEvent>,
}

/// A virtual machine: an operand stack, a resolved program with its label
/// table, an instruction pointer and a halt flag, plus the output events
/// the program has emitted.
pub struct UVM {
    pub stack: Vec<i64>,
    pub program: Vec<Instruction>,
    pub instruction_pointer: usize,
    pub label_table: LabelTable,
    pub halt: bool,
    pub output: Vec<OutputEvent>,
}

impl View for UVM {
    type V = VmSnap;

    open spec fn view(&self) -> VmSnap {
        VmSnap {
            stack: self.stack@,
            program: self.program@,
            instruction_pointer: self.instruction_pointer as int,
            labels: self.label_table@,
            halt: self.halt,
            output: self.output@,
        }
    }
}

/// A value used as a jump target: truncation toward zero has already
/// happened at parse time, a negative target lands on address zero, and a
/// target past the address space saturates; such a target faults on the
/// next fetch rather than here.
pub open spec fn spec_address(v: i64) -> int {
    if v < 0 {
        0
    } else if v > usize::MAX {
        usize::MAX as int
    } else {
        v as int
    }
}

fn address_of(v: i64) -> (r: usize)
    ensures
        r as int == spec_address(v),
{
    if v < 0 {
        0
    } else {
        let u = v as u64;
        if u > usize::MAX as u64 {
            usize::MAX
        } else {
            u as usize
        }
    }
}

/// Division truncating toward zero; the one overflowing quotient wraps to
/// itself, as the machine's values do elsewhere.
pub open spec fn spec_div(a: i64, b: i64) -> i64
    recommends
        b != 0,
{
    match a.checked_div(b) {
        Some(q) => q,
        None => i64::MIN,
    }
}

fn div_value(a: i64, b: i64) -> (r: i64)
    requires
        b != 0,
    ensures
        r == spec_div(a, b),
{
    match a.checked_div(b) {
        Some(q) => q,
        None => i64::MIN,
    }
}

/// The engine's transition relation, one fetch–decode–execute step at a
/// time: the state after the step and the fault it reports, if any.
/// Unless an opcode says otherwise, the pointer advances by one before
/// any operand-dependent check, so a faulting instruction still leaves
/// the pointer on the following slot.
pub open spec fn step(s: VmSnap) -> (VmSnap, Option<ParsingError>) {
    if !(0 <= s.instruction_pointer < s.program.len()) {
        (s, Some(ParsingError::InvalidInstructionPointer))
    } else {
        let inst = s.program[s.instruction_pointer];
        let adv = VmSnap { instruction_pointer: s.instruction_pointer + 1, ..s };
        let len = s.stack.len() as int;
        match inst.instruction_type {
            InstructionType::Push => match inst.operand {
                Some(v) => (VmSnap { stack: adv.stack.push(v), ..adv }, None),
                None => (adv, Some(ParsingError::IllegalOperand)),
            },
            InstructionType::Pop => if len < 1 {
                (adv, Some(ParsingError::StackUnderflow))
            } else {
                (VmSnap { stack: adv.stack.take(len - 1), ..adv }, None)
            },
            InstructionType::Duplicate => match inst.operand {
                Some(n) => if len < n + 1 {
                    (adv, Some(ParsingError::StackUnderflow))
                } else if n < 0 {
                    (adv, Some(ParsingError::IllegalOperand))
                } else {
                    (VmSnap { stack: adv.stack.push(adv.stack[len - 1 - n]), ..adv }, None)
                },
                None => (adv, None),
            },
            InstructionType::Swap => match inst.operand {
                Some(n) => if len < n + 1 {
                    (adv, Some(ParsingError::StackUnderflow))
                } else if n <= 0 {
                    (adv, Some(ParsingError::IllegalOperand))
                } else {
                    let top = adv.stack[len - 1];
                    let deep = adv.stack[len - 1 - n];
                    (
                        VmSnap {
                            stack: adv.stack.update(len - 1 - n, top).update(len - 1, deep),
                            ..adv
                        },
                        None,
                    )
                },
                None => (adv, None),
            },
            InstructionType::Add => if len < 2 {
                (adv, Some(ParsingError::StackUnderflow))
            } else {
                let a = adv.stack[len - 2];
                let b = adv.stack[len - 1];
                (
                    VmSnap {
                        stack: adv.stack.take(len - 2).push(
                            vstd::wrapping::i64_specs::wrapping_add(a, b),
                        ),
                        ..adv
                    },
                    None,
                )
            },
            InstructionType::Subtract => if len < 2 {
                (adv, Some(ParsingError::StackUnderflow))
            } else {
                let a = adv.stack[len - 2];
                let b = adv.stack[len - 1];
                (
                    VmSnap {
                        stack: adv.stack.take(len - 2).push(
                            vstd::wrapping::i64_specs::wrapping_sub(a, b),
                        ),
                        ..adv
                    },
                    None,
                )
            },
            InstructionType::Multiply => if len < 2 {
                (adv, Some(ParsingError::StackUnderflow))
            } else {
                let a = adv.stack[len - 2];
                let b = adv.stack[len - 1];
                (
                    VmSnap {
                        stack: adv.stack.take(len - 2).push(
                            vstd::wrapping::i64_specs::wrapping_mul(a, b),
                        ),
                        ..adv
                    },
                    None,
                )
            },
            InstructionType::Divide => if len < 2 {
                (adv, Some(ParsingError::StackUnderflow))
            } else {
                let a = adv.stack[len - 2];
                let b = adv.stack[len - 1];
                if b == 0 {
                    (VmSnap { stack: adv.stack.take(len - 2), ..adv },
                    Some(ParsingError::DivisionByZero))
                } else {
                    (VmSnap { stack: adv.stack.take(len - 2).push(spec_div(a, b)), ..adv }, None)
                }
            },
            InstructionType::Equal => if len < 2 {
                (adv, Some(ParsingError::StackUnderflow))
            } else {
                let a = adv.stack[len - 2];
                let b = adv.stack[len - 1];
                (
                    VmSnap {
                        stack: adv.stack.take(len - 2).push(
                            if a == b {
                                1i64
                            } else {
                                0i64
                            },
                        ),
                        ..adv
                    },
                    None,
                )
            },
            InstructionType::GreaterEqual => if len < 2 {
                (adv, Some(ParsingError::StackUnderflow))
            } else {
                let a = adv.stack[len - 2];
                let b = adv.stack[len - 1];
                (
                    VmSnap {
                        stack: adv.stack.take(len - 2).push(
                            if a >= b {
                                1i64
                            } else {
                                0i64
                            },
                        ),
                        ..adv
                    },
                    None,
                )
            },
            InstructionType::Not => if len < 1 {
                (adv, Some(ParsingError::StackUnderflow))
            } else {
                let a = adv.stack[len - 1];
                (
                    VmSnap {
                        stack: adv.stack.take(len - 1).push(
                            if a == 0 {
                                1i64
                            } else {
                                0i64
                            },
                        ),
                        ..adv
                    },
                    None,
                )
            },
            InstructionType::Jump => match inst.operand {
                Some(t) => (VmSnap { instruction_pointer: spec_address(t), ..s }, None),
                None => (s, Some(ParsingError::IllegalOperand)),
            },
            InstructionType::JumpIf => if len < 1 {
                (adv, Some(ParsingError::StackUnderflow))
            } else {
                let a = adv.stack[len - 1];
                match inst.operand {
                    Some(t) => if a != 0 {
                        (VmSnap { instruction_pointer: spec_address(t), ..adv }, None)
                    } else {
                        (adv, None)
                    },
                    None => (adv, Some(ParsingError::IllegalOperand)),
                }
            },
            InstructionType::Output => if len < 1 {
                (adv, Some(ParsingError::StackUnderflow))
            } else {
                (
                    VmSnap { output: adv.output.push(OutputEvent::Out(adv.stack[len - 1])), ..adv },
                    None,
                )
            },
            InstructionType::Outputf => if len < 1 {
                (adv, Some(ParsingError::StackUnderflow))
            } else {
                (
                    VmSnap {
                        output: adv.output.push(OutputEvent::Outf(adv.stack[len - 1])),
                        ..adv
                    },
                    None,
                )
            },
            InstructionType::Dump => (
                VmSnap { output: adv.output.push(OutputEvent::Dump), ..adv },
                None,
            ),
            InstructionType::Halt => (VmSnap { halt: true, ..s }, None),
        }
    }
}

/// The opcode of a single-token instruction line, or `None` where the
/// token is not one of the zero-operand mnemonics.
pub open spec fn zero_operand_opcode(t: Seq<char>) -> Option<InstructionType> {
    if t == "pop"@ {
        Some(InstructionType::Pop)
    } else if t == "eql"@ {
        Some(InstructionType::Equal)
    } else if t == "geql"@ {
        Some(InstructionType::GreaterEqual)
    } else if t == "not"@ {
        Some(InstructionType::Not)
    } else if t == "add"@ {
        Some(InstructionType::Add)
    } else if t == "sub"@ {
        Some(InstructionType::Subtract)
    } else if t == "mul"@ {
        Some(InstructionType::Multiply)
    } else if t == "div"@ {
        Some(InstructionType::Divide)
    } else if t == "out"@ {
        Some(InstructionType::Output)
    } else if t == "outf"@ {
        Some(InstructionType::Outputf)
    } else if t == "dmp"@ {
        Some(InstructionType::Dump)
    } else if t == "hlt"@ {
        Some(InstructionType::Halt)
    } else {
        None
    }
}

/// The opcode of a two-token instruction line, or `None` where the first
/// token is not one of the operand-taking mnemonics.
pub open spec fn operand_opcode(t: Seq<char>) -> Option<InstructionType> {
    if t == "push"@ {
        Some(InstructionType::Push)
    } else if t == "dup"@ {
        Some(InstructionType::Duplicate)
    } else if t == "swp"@ {
        Some(InstructionType::Swap)
    } else if t == "jmp"@ {
        Some(InstructionType::Jump)
    } else if t == "jmpif"@ {
        Some(InstructionType::JumpIf)
    } else {
        None
    }
}

/// A label-declaration token: a `.` then the name then a `:`.
pub open spec fn is_label_decl(t: Seq<char>) -> bool {
    t.len() >= 2 && t[0] == '.' && t[t.len() - 1] == ':'
}

/// A recorded program address used as an operand value; an address past
/// the value type's range saturates.
pub open spec fn spec_pos_value(p: usize) -> i64 {
    if p <= i64::MAX {
        p as i64
    } else {
        i64::MAX
    }
}

/// What an operand token denotes: a signed decimal literal first, and
/// failing that the address of the first label already declared under
/// that name. `None` is the loader's IllegalOperand case.
pub open spec fn operand_value(labels: Seq<LabelSnap>, tok: Seq<char>) -> Option<i64> {
    match parse_value(tok) {
        Some(v) => Some(v),
        None => match find_label(labels, tok) {
            Some(p) => Some(spec_pos_value(p)),
            None => None,
        },
    }
}

/// What the loader has built so far: the emitted instructions, the labels
/// declared, and the count of instructions emitted by this load (the
/// address the next instruction will occupy).
pub struct LoadSnap {
    pub program: Seq<Instruction>,
    pub labels: Seq<LabelSnap>,
    pub counter: int,
}

/// The loader on one line: skip it, emit an instruction, record a label,
/// or fail. A line is a comment only when it has two or more tokens and
/// the first begins with `;`; a lone `;`-token is an illegal single-token
/// line, an asymmetry that is part of the format. The operand of a
/// two-token line is resolved before the mnemonic is checked, so a bad
/// operand wins over an unknown mnemonic.
pub open spec fn load_line(st: LoadSnap, line: Seq<char>) -> Result<LoadSnap, LexingError> {
    let ts = split_chars(false, line);
    if ts.len() == 0 {
        Ok(st)
    } else if ts.len() >= 2 && ts[0].len() > 0 && ts[0][0] == ';' {
        Ok(st)
    } else if ts.len() == 1 {
        let t = ts[0];
        match zero_operand_opcode(t) {
            Some(op) => Ok(
                LoadSnap {
                    program: st.program.push(Instruction { instruction_type: op, operand: None }),
                    counter: st.counter + 1,
                    ..st
                },
            ),
            None => if is_label_decl(t) {
                Ok(
                    LoadSnap {
                        labels: st.labels.push(
                            LabelSnap {
                                name: t.subrange(1, t.len() - 1),
                                position: st.counter as usize,
                            },
                        ),
                        ..st
                    },
                )
            } else {
                Err(LexingError::IllegalLabel)
            },
        }
    } else if ts.len() == 2 {
        match operand_value(st.labels, ts[1]) {
            None => Err(LexingError::IllegalOperand),
            Some(v) => match operand_opcode(ts[0]) {
                Some(op) => Ok(
                    LoadSnap {
                        program: st.program.push(
                            Instruction { instruction_type: op, operand: Some(v) },
                        ),
                        counter: st.counter + 1,
                        ..st
                    },
                ),
                None => Err(LexingError::IllegalOperation),
            },
        }
    } else {
        Err(LexingError::IllegalOperand)
    }
}

/// The loader on a sequence of lines: one left-to-right pass, aborted by
/// the first fault. Label references resolve only against labels declared
/// on earlier lines, so a forward reference fails.
pub open spec fn load_lines(st: LoadSnap, lines: Seq<Seq<char>>) -> Result<LoadSnap, LexingError>
    decreases lines.len(),
{
    if lines.len() == 0 {
        Ok(st)
    } else {
        match load_line(st, lines[0]) {
            Ok(st2) => load_lines(st2, lines.drop_first()),
            Err(e) => Err(e),
        }
    }
}

/// The loader on a whole source text, taken as its non-empty lines.
pub open spec fn load_source(st: LoadSnap, src: Seq<char>) -> Result<LoadSnap, LexingError> {
    load_lines(st, split_chars(true, src))
}

fn first_char_is(t: &str, c: char) -> (r: bool)
    ensures
        r == (t@.len() > 0 && t@[0] == c),
{
    if t.unicode_len() > 0 {
        t.get_char(0) == c
    } else {
        false
    }
}

fn lookup_zero_operand(t: &str) -> (r: Option<InstructionType>)
    ensures
        r == zero_operand_opcode(t@),
{
    if str_eq(t, "pop") {
        Some(InstructionType::Pop)
    } else if str_eq(t, "eql") {
        Some(InstructionType::Equal)
    } else if str_eq(t, "geql") {
        Some(InstructionType::GreaterEqual)
    } else if str_eq(t, "not") {
        Some(InstructionType::Not)
    } else if str_eq(t, "add") {
        Some(InstructionType::Add)
    } else if str_eq(t, "sub") {
        Some(InstructionType::Subtract)
    } else if str_eq(t, "mul") {
        Some(InstructionType::Multiply)
    } else if str_eq(t, "div") {
        Some(InstructionType::Divide)
    } else if str_eq(t, "out") {
        Some(InstructionType::Output)
    } else if str_eq(t, "outf") {
        Some(InstructionType::Outputf)
    } else if str_eq(t, "dmp") {
        Some(InstructionType::Dump)
    } else if str_eq(t, "hlt") {
        Some(InstructionType::Halt)
    } else {
        None
    }
}

fn lookup_operand_mnemonic(t: &str) -> (r: Option<InstructionType>)
    ensures
        r == operand_opcode(t@),
{
    if str_eq(t, "push") {
        Some(InstructionType::Push)
    } else if str_eq(t, "dup") {
        Some(InstructionType::Duplicate)
    } else if str_eq(t, "swp") {
        Some(InstructionType::Swap)
    } else if str_eq(t, "jmp") {
        Some(InstructionType::Jump)
    } else if str_eq(t, "jmpif") {
        Some(InstructionType::JumpIf)
    } else {
        None
    }
}

fn pos_value(p: usize) -> (r: i64)
    ensures
        r == spec_pos_value(p),
{
    if (p as u64) <= (i64::MAX as u64) {
        p as i64
    } else {
        i64::MAX
    }
}

/// Bounded execution: at most `fuel` steps, stopping early once halted or
/// on the first fault; running out of fuel is not a fault.
pub open spec fn run_steps(s: VmSnap, fuel: nat) -> (VmSnap, Option<ParsingError>)
    decreases fuel,
{
    if fuel == 0 {
        (s, None)
    } else if s.halt {
        (s, None)
    } else {
        let stepped = step(s);
        if stepped.1 is Some {
            stepped
        } else {
            run_steps(stepped.0, (fuel - 1) as nat)
        }
    }
}

impl UVM {
    /// A fresh machine: empty stack, empty program, pointer at zero, not
    /// halted, nothing recorded.
    pub fn new() -> (r: Self)
        ensures
            r@.stack == Seq::<i64>::empty(),
            r@.program == Seq::<Instruction>::empty(),
            r@.instruction_pointer == 0,
            r@.labels == Seq::<LabelSnap>::empty(),
            r@.halt == false,
            r@.output == Seq::<OutputEvent>::empty(),
    {
        let r = Self {
            stack: Vec::new(),
            program: Vec::new(),
            instruction_pointer: 0,
            label_table: LabelTable::new(),
            halt: false,
            output: Vec::new(),
        };
        proof {
            assert(r@.stack =~= Seq::<i64>::empty());
            assert(r@.program =~= Seq::<Instruction>::empty());
            assert(r@.output =~= Seq::<OutputEvent>::empty());
        }
        r
    }

    /// Loads assembly text into the machine in one left-to-right pass:
    /// lines become instructions, label declarations become label-table
    /// entries bound to the address the next instruction will occupy, and
    /// the first defect aborts the load with its fault. The stack, the
    /// pointer, the halt flag and the output are untouched.
    pub fn load_program_from_source(&mut self, source: &str) -> (r: Option<LexingError>)
        ensures
            ({
                let st0 = LoadSnap {
                    program: old(self)@.program,
                    labels: old(self)@.labels,
                    counter: 0,
                };
                match load_source(st0, source@) {
                    Ok(st) => r is None && final(self)@ == (VmSnap {
                        program: st.program,
                        labels: st.labels,
                        ..old(self)@
                    }),
                    Err(e) => r == Some(e),
                }
            }),
            final(self)@.stack == old(self)@.stack,
            final(self)@.instruction_pointer == old(self)@.instruction_pointer,
            final(self)@.halt == old(self)@.halt,
            final(self)@.output == old(self)@.output,
    {
        let ghost st0 = LoadSnap {
            program: old(self)@.program,
            labels: old(self)@.labels,
            counter: 0,
        };
        let lines = split_str(true, source);
        let start_len = self.program.len();
        let ghost all = split_chars(true, source@);
        let mut li: usize = 0;
        proof {
            assert(views_of(lines@).skip(0) =~~= views_of(lines@));
        }
        while li < lines.len()
            invariant
                li <= lines.len(),
                views_of(lines@) == all,
                all == split_chars(true, source@),
                st0 == (LoadSnap {
                    program: old(self)@.program,
                    labels: old(self)@.labels,
                    counter: 0,
                }),
                start_len == old(self)@.program.len(),
                start_len <= self.program.len(),
                self.stack@ == old(self)@.stack,
                self.instruction_pointer == old(self).instruction_pointer,
                self.halt == old(self).halt,
                self.output@ == old(self)@.output,
                load_lines(st0, all) == load_lines(
                    LoadSnap {
                        program: self.program@,
                        labels: self.label_table@,
                        counter: self.program@.len() - start_len as int,
                    },
                    all.skip(li as int),
                ),
            decreases lines.len() - li,
        {
            let ghost st_i = LoadSnap {
                program: self.program@,
                labels: self.label_table@,
                counter: self.program@.len() - start_len as int,
            };
            let ghost rest = all.skip(li as int);
            proof {
                assert(rest[0] == all[li as int]);
                assert(all[li as int] == lines@[li as int]@);
                assert(rest.drop_first() =~~= all.skip(li as int + 1));
            }
            let line = lines[li];
            let toks = split_str(false, line);
            let ghost ts = split_chars(false, line@);
            proof {
                assert(views_of(toks@) == ts);
                if toks@.len() > 0 {
                    assert(ts[0] == toks@[0]@);
                }
                if toks@.len() > 1 {
                    assert(ts[1] == toks@[1]@);
                }
            }
            let mut fault: Option<LexingError> = None;
            let tcount = toks.len();
            if tcount == 0 {
                // blank line: no instruction
            } else if tcount >= 2 && first_char_is(toks[0], ';') {
                // comment line: skipped whole
            } else if tcount == 1 {
                let t = toks[0];
                match lookup_zero_operand(t) {
                    Some(op) => {
                        self.program.push(Instruction::new(op, None));
                    },
                    None => {
                        let tlen = t.unicode_len();
                        if tlen >= 2 && t.get_char(0) == '.' && t.get_char(tlen - 1) == ':' {
                            let name = t.substring_char(1, tlen - 1).to_owned();
                            let position = self.program.len() - start_len;
                            self.label_table.push(Label::new(name, position));
                        } else {
                            fault = Some(LexingError::IllegalLabel);
                        }
                    },
                }
            } else if tcount == 2 {
                let operand_tok = toks[1];
                let parsed = parse_value_exec(operand_tok);
                let resolved: Option<i64> = match parsed {
                    Some(v) => Some(v),
                    None => match self.label_table.find(operand_tok) {
                        Some(p) => Some(pos_value(p)),
                        None => None,
                    },
                };
                match resolved {
                    None => {
                        fault = Some(LexingError::IllegalOperand);
                    },
                    Some(v) => match lookup_operand_mnemonic(toks[0]) {
                        Some(op) => {
                            self.program.push(Instruction::new(op, Some(v)));
                        },
                        None => {
                            fault = Some(LexingError::IllegalOperation);
                        },
                    },
                }
            } else {
                fault = Some(LexingError::IllegalOperand);
            }
            match fault {
                Some(e) => {
                    proof {
                        assert(load_line(st_i, rest[0]) == Err::<LoadSnap, LexingError>(e));
                    }
                    return Some(e);
                },
                None => {
                    proof {
                        let st_next = LoadSnap {
                            program: self.program@,
                            labels: self.label_table@,
                            counter: self.program@.len() - start_len as int,
                        };
                        assert(load_line(st_i, rest[0]) == Ok::<LoadSnap, LexingError>(st_next));
                    }
                },
            }
            li += 1;
        }
        proof {
            assert(all.skip(li as int) =~~= Seq::<Seq<char>>::empty());
        }
        None
    }

    /// Runs at most `limit` steps, exactly as `run_steps` describes it:
    /// the bounded mode for sandboxing a program that may never halt.
    pub fn run_bounded(&mut self, limit: usize) -> (r: Option<ParsingError>)
        ensures
            final(self)@ == run_steps(old(self)@, limit as nat).0,
            r == run_steps(old(self)@, limit as nat).1,
    {
        let mut k: usize = 0;
        while k < limit
            invariant
                k <= limit,
                run_steps(old(self)@, limit as nat) == run_steps(self@, (limit - k) as nat),
            decreases limit - k,
        {
            if self.halt {
                return None;
            }
            let stepped = self.execute_instruction();
            if let Some(e) = stepped {
                return Some(e);
            }
            k += 1;
        }
        None
    }

    /// One fetch–decode–execute step, exactly as `step` describes it.
    pub fn execute_instruction(&mut self) -> (r: Option<ParsingError>)
        ensures
            final(self)@ == step(old(self)@).0,
            r == step(old(self)@).1,
    {
        if self.instruction_pointer >= self.program.len() {
            return Some(ParsingError::InvalidInstructionPointer);
        }
        let inst = self.program[self.instruction_pointer];
        match inst.instruction_type {
            InstructionType::Push => {
                self.instruction_pointer += 1;
                match inst.operand {
                    Some(v) => {
                        self.stack.push(v);
                        None
                    },
                    None => Some(ParsingError::IllegalOperand),
                }
            },
            InstructionType::Pop => {
                self.instruction_pointer += 1;
                if self.stack.len() < 1 {
                    return Some(ParsingError::StackUnderflow);
                }
                self.stack.pop();
                proof {
                    assert(self.stack@ =~= old(self).stack@.take(old(self).stack@.len() - 1));
                }
                None
            },
            InstructionType::Duplicate => {
                self.instruction_pointer += 1;
                match inst.operand {
                    Some(n) => {
                        if n >= 0 {
                            let len = self.stack.len();
                            if (len as u64) < (n as u64) + 1 {
                                Some(ParsingError::StackUnderflow)
                            } else {
                                let v = self.stack[len - 1 - (n as usize)];
                                self.stack.push(v);
                                None
                            }
                        } else {
                            Some(ParsingError::IllegalOperand)
                        }
                    },
                    None => None,
                }
            },
            InstructionType::Swap => {
                self.instruction_pointer += 1;
                match inst.operand {
                    Some(n) => {
                        if n >= 1 {
                            let len = self.stack.len();
                            if (len as u64) < (n as u64) + 1 {
                                Some(ParsingError::StackUnderflow)
                            } else {
                                let idx = len - 1 - (n as usize);
                                let a = self.stack[idx];
                                let b = self.stack.pop().unwrap();
                                self.stack[idx] = b;
                                self.stack.push(a);
                                proof {
                                    let pre = old(self).stack@;
                                    let l = pre.len() as int;
                                    assert(self.stack@ =~= pre.update(
                                        l - 1 - n,
                                        pre[l - 1],
                                    ).update(l - 1, pre[l - 1 - n]));
                                }
                                None
                            }
                        } else {
                            let len = self.stack.len();
                            if n == 0 && len == 0 {
                                Some(ParsingError::StackUnderflow)
                            } else {
                                Some(ParsingError::IllegalOperand)
                            }
                        }
                    },
                    None => None,
                }
            },
            InstructionType::Add => {
                self.instruction_pointer += 1;
                if self.stack.len() < 2 {
                    return Some(ParsingError::StackUnderflow);
                }
                let b = self.stack.pop().unwrap();
                let a = self.stack.pop().unwrap();
                self.stack.push(a.wrapping_add(b));
                proof {
                    let pre = old(self).stack@;
                    assert(self.stack@ =~= pre.take(pre.len() - 2).push(
                        vstd::wrapping::i64_specs::wrapping_add(pre[pre.len() - 2], pre[pre.len() - 1]),
                    ));
                }
                None
            },
            InstructionType::Subtract => {
                self.instruction_pointer += 1;
                if self.stack.len() < 2 {
                    return Some(ParsingError::StackUnderflow);
                }
                let b = self.stack.pop().unwrap();
                let a = self.stack.pop().unwrap();
                self.stack.push(a.wrapping_sub(b));
                proof {
                    let pre = old(self).stack@;
                    assert(self.stack@ =~= pre.take(pre.len() - 2).push(
                        vstd::wrapping::i64_specs::wrapping_sub(pre[pre.len() - 2], pre[pre.len() - 1]),
                    ));
                }
                None
            },
            InstructionType::Multiply => {
                self.instruction_pointer += 1;
                if self.stack.len() < 2 {
                    return Some(ParsingError::StackUnderflow);
                }
                let b = self.stack.pop().unwrap();
                let a = self.stack.pop().unwrap();
                self.stack.push(a.wrapping_mul(b));
                proof {
                    let pre = old(self).stack@;
                    assert(self.stack@ =~= pre.take(pre.len() - 2).push(
                        vstd::wrapping::i64_specs::wrapping_mul(pre[pre.len() - 2], pre[pre.len() - 1]),
                    ));
                }
                None
            },
            InstructionType::Divide => {
                self.instruction_pointer += 1;
                if self.stack.len() < 2 {
                    return Some(ParsingError::StackUnderflow);
                }
                let b = self.stack.pop().unwrap();
                let a = self.stack.pop().unwrap();
                if b == 0 {
                    proof {
                        let pre = old(self).stack@;
                        assert(self.stack@ =~= pre.take(pre.len() - 2));
                    }
                    return Some(ParsingError::DivisionByZero);
                }
                let q = div_value(a, b);
                self.stack.push(q);
                proof {
                    let pre = old(self).stack@;
                    assert(self.stack@ =~= pre.take(pre.len() - 2).push(
                        spec_div(pre[pre.len() - 2], pre[pre.len() - 1]),
                    ));
                }
                None
            },
            InstructionType::Equal => {
                self.instruction_pointer += 1;
                if self.stack.len() < 2 {
                    return Some(ParsingError::StackUnderflow);
                }
                let b = self.stack.pop().unwrap();
                let a = self.stack.pop().unwrap();
                self.stack.push(if a == b { 1 } else { 0 });
                proof {
                    let pre = old(self).stack@;
                    assert(self.stack@ =~= pre.take(pre.len() - 2).push(
                        if pre[pre.len() - 2] == pre[pre.len() - 1] {
                            1i64
                        } else {
                            0i64
                        },
                    ));
                }
                None
            },
            InstructionType::GreaterEqual => {
                self.instruction_pointer += 1;
                if self.stack.len() < 2 {
                    return Some(ParsingError::StackUnderflow);
                }
                let b = self.stack.pop().unwrap();
                let a = self.stack.pop().unwrap();
                self.stack.push(if a >= b { 1 } else { 0 });
                proof {
                    let pre = old(self).stack@;
                    assert(self.stack@ =~= pre.take(pre.len() - 2).push(
                        if pre[pre.len() - 2] >= pre[pre.len() - 1] {
                            1i64
                        } else {
                            0i64
                        },
                    ));
                }
                None
            },
            InstructionType::Not => {
                self.instruction_pointer += 1;
                if self.stack.len() < 1 {
                    return Some(ParsingError::StackUnderflow);
                }
                let a = self.stack.pop().unwrap();
                self.stack.push(if a == 0 { 1 } else { 0 });
                proof {
                    let pre = old(self).stack@;
                    assert(self.stack@ =~= pre.take(pre.len() - 1).push(
                        if pre[pre.len() - 1] == 0 {
                            1i64
                        } else {
                            0i64
                        },
                    ));
                }
                None
            },
            InstructionType::Jump => {
                match inst.operand {
                    Some(t) => {
                        self.instruction_pointer = address_of(t);
                        None
                    },
                    None => Some(ParsingError::IllegalOperand),
                }
            },
            InstructionType::JumpIf => {
                self.instruction_pointer += 1;
                if self.stack.len() < 1 {
                    return Some(ParsingError::StackUnderflow);
                }
                let a = self.stack.pop().unwrap();
                self.stack.push(a);
                proof {
                    assert(self.stack@ =~= old(self).stack@);
                }
                match inst.operand {
                    Some(t) => {
                        if a != 0 {
                            self.instruction_pointer = address_of(t);
                        }
                        None
                    },
                    None => Some(ParsingError::IllegalOperand),
                }
            },
            InstructionType::Output => {
                self.instruction_pointer += 1;
                if self.stack.len() < 1 {
                    return Some(ParsingError::StackUnderflow);
                }
                let a = self.stack.pop().unwrap();
                self.stack.push(a);
                self.output.push(OutputEvent::Out(a));
                proof {
                    assert(self.stack@ =~= old(self).stack@);
                }
                None
            },
            InstructionType::Outputf => {
                self.instruction_pointer += 1;
                if self.stack.len() < 1 {
                    return Some(ParsingError::StackUnderflow);
                }
                let a = self.stack.pop().unwrap();
                self.stack.push(a);
                self.output.push(OutputEvent::Outf(a));
                proof {
                    assert(self.stack@ =~= old(self).stack@);
                }
                None
            },
            InstructionType::Dump => {
                self.instruction_pointer += 1;
                self.output.push(OutputEvent::Dump);
                None
            },
            InstructionType::Halt => {
                self.halt = true;
                None
            },
        }
    }
}

} // verus!
