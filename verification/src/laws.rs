use vstd::prelude::*;
use crate::error::{LexingError, ParsingError};
use crate::instruction::{Instruction, InstructionType};
use crate::label::find_label;
use crate::machine::{
    LoadSnap, VmSnap, load_line, run_steps, spec_pos_value, step,
};
use crate::text::{parse_value, split_chars};

verus! {

/// Output and Outputf never mutate the stack: whether the step succeeds
/// or underflows, everything but the pointer and the recorded output is
/// exactly as it was before the step.
pub proof fn lemma_output_preserves_stack(s: VmSnap)
    requires
        0 <= s.instruction_pointer < s.program.len(),
        s.program[s.instruction_pointer].instruction_type == InstructionType::Output
            || s.program[s.instruction_pointer].instruction_type == InstructionType::Outputf,
    ensures
        step(s).0.stack == s.stack,
        step(s).0.program == s.program,
        step(s).0.labels == s.labels,
        step(s).0.halt == s.halt,
{
}

/// The single-pass boundary of label resolution: a `jmp` line whose
/// operand token is not numeric resolves only against labels already
/// declared, so a reference to a label that is still undeclared fails the
/// load with IllegalOperand, while one to a label declared earlier emits a
/// jump to that label's recorded address.
pub proof fn lemma_label_resolution_single_pass(st: LoadSnap, line: Seq<char>, n: Seq<char>)
    requires
        split_chars(false, line) == seq!["jmp"@, n],
        parse_value(n) is None,
    ensures
        find_label(st.labels, n) is None ==> load_line(st, line) == Err::<
            LoadSnap,
            LexingError,
        >(LexingError::IllegalOperand),
        forall|p: usize|
            find_label(st.labels, n) == Some(p) ==> load_line(st, line) == Ok::<
                LoadSnap,
                LexingError,
            >(
                LoadSnap {
                    program: st.program.push(
                        Instruction {
                            instruction_type: InstructionType::Jump,
                            operand: Some(spec_pos_value(p)),
                        },
                    ),
                    counter: st.counter + 1,
                    ..st
                },
            ),
{
    reveal_strlit("jmp");
    reveal_strlit("push");
    reveal_strlit("dup");
    reveal_strlit("swp");
    reveal_strlit("jmpif");
    let ts = split_chars(false, line);
    assert(ts[0] == "jmp"@);
    assert(ts[0][0] == 'j');
    assert("push"@.len() != "jmp"@.len());
    assert("dup"@[0] != "jmp"@[0]);
    assert("swp"@[0] != "jmp"@[0]);
    assert("jmpif"@.len() != "jmp"@.len());
}

/// Bounded execution of the one-instruction self-jump program, an
/// infinite loop, consumes any step limit without halting and without a
/// fault, leaving the machine exactly where it started: the limit, not
/// the program, ends the run.
pub proof fn lemma_bounded_self_jump(s: VmSnap, fuel: nat)
    requires
        s.program == seq![
            Instruction { instruction_type: InstructionType::Jump, operand: Some(0i64) },
        ],
        s.instruction_pointer == 0,
        s.halt == false,
    ensures
        run_steps(s, fuel) == (s, None::<ParsingError>),
    decreases fuel,
{
    if fuel > 0 {
        assert(step(s) == (s, None::<ParsingError>));
        lemma_bounded_self_jump(s, (fuel - 1) as nat);
    }
}

/// A program of pushes of `vs` in order, then a halt.
pub open spec fn push_then_halt(vs: Seq<i64>) -> Seq<Instruction> {
    Seq::new(
        vs.len(),
        |i: int| Instruction { instruction_type: InstructionType::Push, operand: Some(vs[i]) },
    ).push(Instruction { instruction_type: InstructionType::Halt, operand: None })
}

proof fn lemma_push_program_from(s: VmSnap, vs: Seq<i64>, i: int, fuel: nat)
    requires
        s.program == push_then_halt(vs),
        0 <= i <= vs.len(),
        s.instruction_pointer == i,
        s.stack == vs.take(i),
        s.halt == false,
        fuel >= vs.len() + 1 - i,
    ensures
        run_steps(s, fuel).1 is None,
        run_steps(s, fuel).0.halt,
        run_steps(s, fuel).0.stack == vs,
    decreases fuel,
{
    if i == vs.len() {
        let s2 = step(s).0;
        assert(s.program[i].instruction_type == InstructionType::Halt);
        assert(s2 == (VmSnap { halt: true, ..s }));
        assert(s2.stack =~= vs);
    } else {
        let s2 = step(s).0;
        assert(s.program[i].instruction_type == InstructionType::Push);
        assert(s.program[i].operand == Some(vs[i]));
        assert(s2.stack =~= vs.take(i + 1));
        lemma_push_program_from(s2, vs, i + 1, (fuel - 1) as nat);
    }
}

/// A program consisting solely of pushes of `vs` followed by a halt runs
/// to the halted state whose stack is exactly `vs` in push order, bottom
/// to top, with no fault, once the step limit covers every instruction.
pub proof fn lemma_push_program(s: VmSnap, vs: Seq<i64>, fuel: nat)
    requires
        s.program == push_then_halt(vs),
        s.instruction_pointer == 0,
        s.stack == Seq::<i64>::empty(),
        s.halt == false,
        fuel >= vs.len() + 1,
    ensures
        run_steps(s, fuel).1 is None,
        run_steps(s, fuel).0.halt,
        run_steps(s, fuel).0.stack == vs,
{
    assert(vs.take(0) =~= Seq::<i64>::empty());
    lemma_push_program_from(s, vs, 0, fuel);
}

} // verus!
