//! Lowering of operands and instructions to assembly text.

use vstd::prelude::*;
use crate::error::LowerError;
use crate::ir::{
    lemma_literals_of_grows, literals_of, models, IrInstr, IrOperand, OperandModel, Target,
};
use crate::laws::{law_instr_outcome, law_operand_outcome};
use crate::lines::{label_name, load_base, sreg, store_width, words, load_value};
use crate::lowering::{
    lower_binary, lower_branch, lower_call, lower_instr, lower_move, lower_operand, lower_return,
    place_args, Lowered, Unit,
};
use crate::text::{decimal_text, push2, push3, push4, push5, push_repeated};
use crate::types::Type;
use crate::x86::ArgCPU;
use std::collections::HashSet;

verus! {

/// The executable result `r` is the outcome `m`.
pub open spec fn same_outcome(
    r: Result<String, LowerError>,
    m: Result<Seq<char>, LowerError>,
) -> bool {
    match r {
        Ok(text) => m == Ok::<Seq<char>, LowerError>(text@),
        Err(e) => m == Err::<Seq<char>, LowerError>(e),
    }
}

/// Lowering takes at most one label for each string literal in the operand,
/// and never gives one back.
pub proof fn lemma_labels_bounded(op: OperandModel, left: bool, unit: Unit)
    ensures
        unit.labels <= lower_operand(op, left, unit).unit.labels <= unit.labels
            + op.string_literals().len(),
    decreases op,
{
    match op {
        OperandModel::FieldAccess { base, .. } => {
            lemma_labels_bounded(*base, left, unit);
        },
        OperandModel::ArrayAccess { base, value } => {
            lemma_labels_bounded(*base, left, unit);
            let b = lower_operand(*base, left, unit);
            lemma_labels_bounded(*value, left, b.unit.emit(load_base(b.result->Ok_0)));
        },
        OperandModel::Deref { to_deref } => {
            lemma_labels_bounded(*to_deref, left, unit);
        },
        OperandModel::TakeRef { to_ref } => {
            lemma_labels_bounded(*to_ref, left, unit);
        },
        _ => {},
    }
}

/// The operand-size keyword of a store of a value of type `vtype`.
pub fn get_asmx86_type_name(vtype: &Type) -> (r: &'static str)
    ensures
        r@ == store_width(vtype@),
{
    match vtype {
        Type::BoolT | Type::CharT => "BYTE",
        _ => "QWORD",
    }
}

/// The scratch register of the left or the right operand.
pub fn get_sreg(left: bool) -> (r: String)
    ensures
        r@ == sreg(left),
{
    if left {
        String::from_str("r9")
    } else {
        String::from_str("r10")
    }
}

/// The buffers `stack`, `statics` and the label counter `count` hold what
/// `unit` says.
pub open spec fn holds(unit: Unit, stack: Seq<char>, statics: Seq<char>, count: usize) -> bool {
    &&& unit.code == stack
    &&& unit.statics == statics
    &&& unit.labels == count
}

/// The buffers of a unit as a value.
pub open spec fn unit_of(stack: Seq<char>, statics: Seq<char>, count: usize) -> Unit {
    Unit { code: stack, statics, labels: count as nat }
}

/// Lowers the operand `op`: appends the instructions that compute it to
/// `stack`, the data of its string literals to `statics`, and returns the
/// text by which an instruction refers to it. `statics_count` numbers the
/// labels. Where lowering stops, what was emitted up to there stays.
pub fn compile_ir_op_to_x86(
    op: &IrOperand,
    left: bool,
    stack: &mut String,
    statics: &mut String,
    statics_count: &mut usize,
) -> (r: Result<String, LowerError>)
    requires
        op@.fits(),
        *old(statics_count) + op@.string_literals().len() <= usize::MAX,
    ensures
        ({
            let before = unit_of(old(stack)@, old(statics)@, *old(statics_count));
            let l = lower_operand(op@, left, before);
            &&& holds(l.unit, final(stack)@, final(statics)@, *final(statics_count))
            &&& same_outcome(r, l.result)
        }),
        r is Ok <==> op@.resolves(),
        r matches Err(e) ==> e == LowerError::InvariantViolation,
    decreases op, 1nat,
{
    proof {
        law_operand_outcome(op@, left, unit_of(old(stack)@, old(statics)@, *old(statics_count)));
    }
    let reg = get_sreg(left);
    match op {
        IrOperand::IntLiteral { value } => Ok(value.clone()),
        IrOperand::FloatLiteral { value } => Ok(value.clone()),
        IrOperand::CharLiteral { value } => Ok(value.clone()),
        IrOperand::StringLiteral { value } => {
            let label = label_text(*statics_count);
            push5(statics, "   ", label.as_str(), ": db ", value.as_str(), ",0x0\n");
            *statics_count += 1;
            push5(stack, "    lea ", reg.as_str(), ", [rel ", label.as_str(), "]\n");
            Ok(reg)
        },
        IrOperand::Name { name, vtype: _ } => {
            push5(stack, "    lea ", reg.as_str(), ", [rel ", name.as_str(), "]\n");
            Ok(reg)
        },
        IrOperand::StackOperand { var_idx: _, name: _, stack_offset, vtype: _ } => {
            let below = decimal_text(*stack_offset + 8);
            push5(stack, "    lea ", reg.as_str(), ", [rbp-", below.as_str(), "]\n");
            Ok(reg)
        },
        IrOperand::FieldAccess { base, name } => compile_field_access(
            base,
            name,
            left,
            stack,
            statics,
            statics_count,
        ),
        IrOperand::ArrayAccess { base, value } => {
            proof {
                lemma_labels_bounded(
                    base@,
                    left,
                    unit_of(old(stack)@, old(statics)@, *old(statics_count)),
                );
            }
            let address = match compile_ir_op_to_x86(base, left, stack, statics, statics_count) {
                Ok(t) => t,
                Err(x) => {
                    return Err(x);
                },
            };
            push3(stack, "    lea r11, ", address.as_str(), "\n");
            let index = match compile_ir_op_to_x86(value, left, stack, statics, statics_count) {
                Ok(t) => t,
                Err(x) => {
                    return Err(x);
                },
            };
            push2(stack, "    add r11, ", index.as_str());
            push3(stack, "    mov ", reg.as_str(), ", r11");
            Ok(reg)
        },
        IrOperand::Deref { to_deref } => {
            let address = match compile_ir_op_to_x86(
                to_deref,
                left,
                stack,
                statics,
                statics_count,
            ) {
                Ok(t) => t,
                Err(x) => {
                    return Err(x);
                },
            };
            push5(stack, "    mov ", reg.as_str(), ",[", address.as_str(), "]\n");
            Ok(reg)
        },
        IrOperand::TakeRef { to_ref } => {
            let place = match compile_ir_op_to_x86(to_ref, left, stack, statics, statics_count) {
                Ok(t) => t,
                Err(x) => {
                    return Err(x);
                },
            };
            push5(stack, "lea ", reg.as_str(), ", ", place.as_str(), "\n");
            Ok(reg)
        },
    }
}

/// Lowers the access to the component `name` of `base`.
fn compile_field_access(
    base: &IrOperand,
    name: &String,
    left: bool,
    stack: &mut String,
    statics: &mut String,
    statics_count: &mut usize,
) -> (r: Result<String, LowerError>)
    requires
        (OperandModel::FieldAccess { base: Box::new(base@), name: name@ }).fits(),
        *old(statics_count) + base@.string_literals().len() <= usize::MAX,
    ensures
        ({
            let l = lower_operand(
                OperandModel::FieldAccess { base: Box::new(base@), name: name@ },
                left,
                unit_of(old(stack)@, old(statics)@, *old(statics_count)),
            );
            &&& holds(l.unit, final(stack)@, final(statics)@, *final(statics_count))
            &&& same_outcome(r, l.result)
        }),
    decreases base, 2nat,
{
    let reg = get_sreg(left);
    let offset = match base.get_type() {
        Some(t) => t.get_variable_offset(name),
        None => None,
    };
    let offset = match offset {
        Some(n) => n,
        None => {
            return Err(LowerError::InvariantViolation);
        },
    };
    match base {
        IrOperand::StackOperand { var_idx: _, name: _, stack_offset, vtype: _ } => {
            let below = decimal_text(*stack_offset + 8 + offset);
            push5(stack, "    lea ", reg.as_str(), ", [rbp-", below.as_str(), "]\n");
            Ok(reg)
        },
        _ => {
            let address = match compile_ir_op_to_x86(base, left, stack, statics, statics_count) {
                Ok(t) => t,
                Err(x) => {
                    return Err(x);
                },
            };
            push4(stack, "add ", address.as_str(), ", ", decimal_text(offset).as_str());
            Ok(reg)
        },
    }
}

/// The label of the `n`-th string literal.
fn label_text(n: usize) -> (r: String)
    ensures
        r@ == label_name(n as nat),
{
    let mut label = String::from_str("label_");
    label.append(decimal_text(n).as_str());
    label
}

/// Once an argument has stopped the call, the arguments after it change
/// nothing.
pub proof fn lemma_failure_sticks(args: Seq<OperandModel>, i: nat, n: nat, unit: Unit)
    requires
        i <= n <= args.len(),
        place_args(args, i, unit).failure is Some,
    ensures
        place_args(args, n, unit) == place_args(args, i, unit),
    decreases n,
{
    if i < n {
        lemma_failure_sticks(args, i, (n - 1) as nat, unit);
    }
}

/// The number of eight-byte words that `size` bytes take.
fn word_count(size: usize) -> (r: usize)
    ensures
        r == words(size as nat),
{
    if size % 8 == 0 {
        size / 8
    } else {
        size / 8 + 1
    }
}

/// Appends the load of an operand's value into `dst`.
fn push_load_value(out: &mut String, dst: &str, operand: &str, in_register: bool)
    ensures
        final(out)@ == old(out)@ + load_value(dst@, operand@, in_register),
{
    if in_register {
        push5(out, "    mov ", dst, ", QWORD [", operand, "]\n");
    } else {
        push5(out, "    mov ", dst, ", ", operand, "\n");
    }
}

/// Lowers an arithmetic or bitwise instruction.
fn compile_binary(
    mnemonic: &str,
    second: &str,
    target: &IrOperand,
    left: &IrOperand,
    right: &IrOperand,
    vtype: &Type,
    statics: &mut String,
    statics_count: &mut usize,
) -> (r: Result<String, LowerError>)
    requires
        target@.fits(),
        left@.fits(),
        right@.fits(),
        *old(statics_count) + (left@.string_literals() + right@.string_literals()
            + target@.string_literals()).len() <= usize::MAX,
    ensures
        ({
            let l = lower_binary(
                mnemonic@,
                second@,
                target@,
                left@,
                right@,
                vtype@,
                unit_of(Seq::empty(), old(statics)@, *old(statics_count)),
            );
            &&& final(statics)@ == l.unit.statics
            &&& *final(statics_count) == l.unit.labels
            &&& same_outcome(r, l.result)
        }),
{
    let mut out = String::new();
    let ghost start = unit_of(out@, statics@, *statics_count);
    proof {
        lemma_labels_bounded(left@, true, start);
    }
    let left_text = match compile_ir_op_to_x86(left, true, &mut out, statics, statics_count) {
        Ok(t) => t,
        Err(e) => {
            return Err(e);
        },
    };
    proof {
        lemma_labels_bounded(right@, false, unit_of(out@, statics@, *statics_count));
    }
    let right_text = match compile_ir_op_to_x86(right, false, &mut out, statics, statics_count) {
        Ok(t) => t,
        Err(e) => {
            return Err(e);
        },
    };
    push_load_value(&mut out, "rax", left_text.as_str(), !left.is_literal());
    push_load_value(&mut out, second, right_text.as_str(), !right.is_literal());
    push5(&mut out, "    ", mnemonic, " rax, ", second, "\n");
    let address = match compile_ir_op_to_x86(target, true, &mut out, statics, statics_count) {
        Ok(t) => t,
        Err(e) => {
            return Err(e);
        },
    };
    push5(&mut out, "    mov ", get_asmx86_type_name(vtype), " [", address.as_str(), "], rax\n");
    Ok(out)
}

/// Lowers a copy.
fn compile_move(
    target: &IrOperand,
    source: &IrOperand,
    vtype: &Type,
    statics: &mut String,
    statics_count: &mut usize,
) -> (r: Result<String, LowerError>)
    requires
        target@.fits(),
        source@.fits(),
        vtype@.fits(),
        *old(statics_count) + (target@.string_literals() + source@.string_literals()).len()
            <= usize::MAX,
    ensures
        ({
            let l = lower_move(
                target@,
                source@,
                vtype@.size(),
                unit_of(Seq::empty(), old(statics)@, *old(statics_count)),
            );
            &&& final(statics)@ == l.unit.statics
            &&& *final(statics_count) == l.unit.labels
            &&& same_outcome(r, l.result)
        }),
{
    let mut out = String::new();
    proof {
        lemma_labels_bounded(target@, true, unit_of(out@, statics@, *statics_count));
    }
    let target_text = match compile_ir_op_to_x86(target, true, &mut out, statics, statics_count) {
        Ok(t) => t,
        Err(e) => {
            return Err(e);
        },
    };
    let source_text = match compile_ir_op_to_x86(source, false, &mut out, statics, statics_count) {
        Ok(t) => t,
        Err(e) => {
            return Err(e);
        },
    };
    push3(&mut out, "  mov rax, ", target_text.as_str(), "\n");
    push3(&mut out, "  mov rbx, ", source_text.as_str(), "\n");
    push_repeated(
        &mut out,
        "    mov rcx,QWORD [rbx]\n    mov QWORD [rax], rcx\n    add rax,8\n    add rbx, 8\n",
        word_count(vtype.get_size_bytes()),
    );
    Ok(out)
}

/// Lowers and places the arguments of a call, and returns the number of
/// words that went to the stack.
fn compile_args(
    args: &Vec<IrOperand>,
    out: &mut String,
    statics: &mut String,
    statics_count: &mut usize,
) -> (r: Result<usize, LowerError>)
    requires
        forall|i: int| 0 <= i < args@.len() ==> (#[trigger] models(args@)[i]).fits(),
        2 * args@.len() <= usize::MAX,
        *old(statics_count) + literals_of(models(args@), args@.len()).len() <= usize::MAX,
    ensures
        ({
            let a = place_args(
                models(args@),
                args@.len(),
                unit_of(old(out)@, old(statics)@, *old(statics_count)),
            );
            &&& holds(a.unit, final(out)@, final(statics)@, *final(statics_count))
            &&& match r {
                Ok(spills) => a.failure is None && spills == a.spills,
                Err(e) => a.failure == Some(e),
            }
        }),
{
    let ghost start = unit_of(out@, statics@, *statics_count);
    let ghost ops = models(args@);
    let mut slots = ArgCPU::new();
    let mut pop_count: usize = 0;
    let mut i: usize = 0;
    while i < args.len()
        invariant
            i <= args.len(),
            ops == models(args@),
            start == unit_of(old(out)@, old(statics)@, *old(statics_count)),
            forall|j: int| 0 <= j < args@.len() ==> (#[trigger] ops[j]).fits(),
            2 * args@.len() <= usize::MAX,
            start.labels + literals_of(ops, args@.len()).len() <= usize::MAX,
            place_args(ops, i as nat, start).failure is None,
            holds(place_args(ops, i as nat, start).unit, out@, statics@, *statics_count),
            slots@.int_taken == place_args(ops, i as nat, start).taken,
            pop_count == place_args(ops, i as nat, start).spills,
            pop_count <= 2 * i,
            *statics_count <= start.labels + literals_of(ops, i as nat).len(),
        decreases args.len() - i,
    {
        let ghost prev = place_args(ops, i as nat, start);
        proof {
            assert(ops[i as int] == args@[i as int]@);
            assert(ops[i as int].fits());
            lemma_labels_bounded(ops[i as int], true, prev.unit);
            lemma_literals_of_grows(ops, (i + 1) as nat, args@.len());
        }
        let text = match compile_ir_op_to_x86(&args[i], true, out, statics, statics_count) {
            Ok(t) => t,
            Err(e) => {
                proof {
                    lemma_failure_sticks(ops, (i + 1) as nat, args@.len(), start);
                }
                return Err(e);
            },
        };
        let arg_type = match args[i].get_type() {
            Some(t) => t,
            None => {
                proof {
                    lemma_failure_sticks(ops, (i + 1) as nat, args@.len(), start);
                }
                return Err(LowerError::InvariantViolation);
            },
        };
        let placed = match slots.generate_arg(text.as_str(), &arg_type, &mut pop_count) {
            Ok(t) => t,
            Err(e) => {
                proof {
                    lemma_failure_sticks(ops, (i + 1) as nat, args@.len(), start);
                }
                return Err(e);
            },
        };
        out.append(placed.as_str());
        i += 1;
    }
    Ok(pop_count)
}

/// Lowers a call, with or without a captured result.
fn compile_call(
    platform: &Target,
    func_name: &String,
    args: &Vec<IrOperand>,
    captured: Option<(&IrOperand, &Type)>,
    statics: &mut String,
    statics_count: &mut usize,
) -> (r: Result<String, LowerError>)
    requires
        forall|i: int| 0 <= i < args@.len() ==> (#[trigger] models(args@)[i]).fits(),
        2 * args@.len() <= usize::MAX,
        captured matches Some((target, vtype)) ==> target@.fits() && vtype@.fits(),
        *old(statics_count) + literals_of(models(args@), args@.len()).len() + (match captured {
            Some((target, _)) => target@.string_literals().len(),
            None => 0,
        }) <= usize::MAX,
    ensures
        ({
            let l = lower_call(
                *platform,
                func_name@,
                models(args@),
                match captured {
                    Some((target, vtype)) => Some((target@, vtype@)),
                    None => None,
                },
                unit_of(Seq::empty(), old(statics)@, *old(statics_count)),
            );
            &&& final(statics)@ == l.unit.statics
            &&& *final(statics_count) == l.unit.labels
            &&& same_outcome(r, l.result)
        }),
{
    let mut out = String::new();
    let ghost start = unit_of(out@, statics@, *statics_count);
    let spills = match compile_args(args, &mut out, statics, statics_count) {
        Ok(n) => n,
        Err(e) => {
            return Err(e);
        },
    };
    proof {
        lemma_args_labels_bounded(models(args@), args@.len(), start);
    }
    match platform {
        Target::MacOs { arm: _ } => {
            push3(&mut out, " call _", func_name.as_str(), "\n");
        },
        _ => {
            push3(&mut out, " call ", func_name.as_str(), "\n");
        },
    }
    match captured {
        Some((target, vtype)) => {
            let address = match compile_ir_op_to_x86(
                target,
                true,
                &mut out,
                statics,
                statics_count,
            ) {
                Ok(t) => t,
                Err(e) => {
                    return Err(e);
                },
            };
            let size = vtype.get_size_bytes();
            if size > 16 {
                return Err(LowerError::Unimplemented);
            }
            push3(&mut out, "    mov QWORD[", address.as_str(), "], rax\n");
            if size > 8 {
                push3(&mut out, "    mov QWORD[", address.as_str(), "-8], rdx\n");
            }
        },
        None => {},
    }
    push_repeated(&mut out, "    pop r10\n", spills);
    Ok(out)
}

/// Placing arguments takes at most one label for each string literal in
/// them.
pub proof fn lemma_args_labels_bounded(args: Seq<OperandModel>, n: nat, unit: Unit)
    requires
        n <= args.len(),
    ensures
        unit.labels <= place_args(args, n, unit).unit.labels <= unit.labels + literals_of(
            args,
            n,
        ).len(),
    decreases n,
{
    if n > 0 {
        lemma_args_labels_bounded(args, (n - 1) as nat, unit);
        let prev = place_args(args, (n - 1) as nat, unit);
        lemma_labels_bounded(args[n - 1], true, prev.unit);
    }
}

/// Lowers a return.
fn compile_return(value: &IrOperand, statics: &mut String, statics_count: &mut usize) -> (r:
    Result<String, LowerError>)
    requires
        value@.fits(),
        value@.type_of() matches Some(t) ==> t.fits(),
        *old(statics_count) + value@.string_literals().len() <= usize::MAX,
    ensures
        ({
            let l = lower_return(
                value@,
                unit_of(Seq::empty(), old(statics)@, *old(statics_count)),
            );
            &&& final(statics)@ == l.unit.statics
            &&& *final(statics_count) == l.unit.labels
            &&& same_outcome(r, l.result)
        }),
{
    let size = match value.get_type() {
        Some(t) => t.get_size_bytes(),
        None => {
            return Err(LowerError::InvariantViolation);
        },
    };
    let mut out = String::new();
    out.append("    pop rdx\n   pop rcx\n   pop rbx\n");
    let text = match compile_ir_op_to_x86(value, true, &mut out, statics, statics_count) {
        Ok(t) => t,
        Err(e) => {
            return Err(e);
        },
    };
    if size == 0 || size > 16 {
    } else if size <= 8 {
        push2(&mut out, "   mov rax, ", text.as_str());
    } else {
        return Err(LowerError::Unimplemented);
    }
    out.append("\n   mov rsp, rbp\n   pop rbp\n     ret\n");
    Ok(out)
}

/// Lowers a conditional jump.
fn compile_branch(
    cond: &IrOperand,
    target: &String,
    statics: &mut String,
    statics_count: &mut usize,
) -> (r: Result<String, LowerError>)
    requires
        cond@.fits(),
        *old(statics_count) + cond@.string_literals().len() <= usize::MAX,
    ensures
        ({
            let l = lower_branch(
                cond@,
                target@,
                unit_of(Seq::empty(), old(statics)@, *old(statics_count)),
            );
            &&& final(statics)@ == l.unit.statics
            &&& *final(statics_count) == l.unit.labels
            &&& same_outcome(r, l.result)
        }),
{
    let mut out = String::new();
    let text = match compile_ir_op_to_x86(cond, true, &mut out, statics, statics_count) {
        Ok(t) => t,
        Err(e) => {
            return Err(e);
        },
    };
    push3(&mut out, "cmp ", text.as_str(), ", 0\n");
    push2(&mut out, "jne ", target.as_str());
    Ok(out)
}

/// Lowers the instruction `instr` for the platform `cmp_target` and returns
/// its assembly text. The data of its string literals is appended to
/// `statics`, and `statics_count` numbers their labels. Where lowering
/// stops, the data emitted up to there stays. Neither `_depth` nor
/// `_used_types` is touched.
pub fn compile_ir_instr_to_x86(
    instr: &IrInstr,
    _depth: &mut usize,
    _used_types: &mut HashSet<Type>,
    statics_count: &mut usize,
    statics: &mut String,
    cmp_target: &Target,
) -> (r: Result<String, LowerError>)
    requires
        instr@.fits(),
        *old(statics_count) + instr@.string_literals().len() <= usize::MAX,
    ensures
        ({
            let l = lower_instr(
                instr@,
                *cmp_target,
                unit_of(Seq::empty(), old(statics)@, *old(statics_count)),
            );
            &&& final(statics)@ == l.unit.statics
            &&& *final(statics_count) == l.unit.labels
            &&& same_outcome(r, l.result)
        }),
        r is Ok <==> instr@.lowers(),
        *final(_depth) == *old(_depth),
        *final(_used_types) == *old(_used_types),
{
    proof {
        law_instr_outcome(
            instr@,
            *cmp_target,
            unit_of(Seq::empty(), old(statics)@, *old(statics_count)),
        );
    }
    match instr {
        IrInstr::Add { target, left, right, vtype } => compile_binary(
            "add",
            "rbx",
            target,
            left,
            right,
            vtype,
            statics,
            statics_count,
        ),
        IrInstr::Sub { target, left, right, vtype } => compile_binary(
            "sub",
            "rbx",
            target,
            left,
            right,
            vtype,
            statics,
            statics_count,
        ),
        IrInstr::Mul { target, left, right, vtype } => compile_binary(
            "imul",
            "rbx",
            target,
            left,
            right,
            vtype,
            statics,
            statics_count,
        ),
        IrInstr::Div { target, left, right, vtype } => compile_binary(
            "idiv",
            "rdx",
            target,
            left,
            right,
            vtype,
            statics,
            statics_count,
        ),
        IrInstr::And { target, left, right, vtype } => compile_binary(
            "and",
            "rbx",
            target,
            left,
            right,
            vtype,
            statics,
            statics_count,
        ),
        IrInstr::Or { target, left, right, vtype } => compile_binary(
            "or",
            "rbx",
            target,
            left,
            right,
            vtype,
            statics,
            statics_count,
        ),
        IrInstr::GreaterThan { .. }
        | IrInstr::GreaterThanOrEq { .. }
        | IrInstr::LessThan { .. }
        | IrInstr::LessThanOrEq { .. }
        | IrInstr::Equals { .. }
        | IrInstr::NotEquals { .. }
        | IrInstr::Not { .. } => Err(LowerError::Unimplemented),
        IrInstr::Mov { left, right, vtype } => compile_move(
            left,
            right,
            vtype,
            statics,
            statics_count,
        ),
        IrInstr::BeginScope => Ok(String::from_str("    call push_frame()")),
        IrInstr::EndScope => Ok(String::from_str("    call pop_frame()")),
        IrInstr::Call { func_name, args } => compile_call(
            cmp_target,
            func_name,
            args,
            None,
            statics,
            statics_count,
        ),
        IrInstr::CallWithRet { target, func_name, args, vtype } => compile_call(
            cmp_target,
            func_name,
            args,
            Some((target, vtype)),
            statics,
            statics_count,
        ),
        IrInstr::Goto { target } => {
            let mut out = String::new();
            push2(&mut out, "    jmp ", target.as_str());
            Ok(out)
        },
        IrInstr::CondGoto { cond, target } => compile_branch(cond, target, statics, statics_count),
        IrInstr::Label { name } => {
            let mut out = String::new();
            push2(&mut out, name.as_str(), ":");
            Ok(out)
        },
        IrInstr::VariableDeclaration { name: _, vtype } => {
            let mut out = String::new();
            out.append("   xor r10,r10;\n");
            push_repeated(&mut out, "    push r10", word_count(vtype.get_size_bytes()));
            Ok(out)
        },
        IrInstr::Push { vtype, val_idx: _ } => {
            let mut out = String::new();
            out.append("   xor r10, r10\n");
            push_repeated(&mut out, "    push r10\n", word_count(vtype.get_size_bytes()));
            Ok(out)
        },
        IrInstr::Pop { vtype } => {
            let mut out = String::new();
            push_repeated(&mut out, "    pop r10\n", word_count(vtype.get_size_bytes()));
            out.append("    xor r10,r10\n");
            Ok(out)
        },
        IrInstr::Ret { to_return } => compile_return(to_return, statics, statics_count),
    }
}

} // verus!
